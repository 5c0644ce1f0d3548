//! The block of guidance in instruction files.

use cloudfolder::agent::{
    agent_instruction_files, configured_notice, guided_agents, has_agent_block,
    managed_agent_block, read_text_utf8, remove_managed_block_text, removed_notice, setup_notice,
    status_line, unknown_encoding, upsert_managed_block, CodingAgent, IncompleteBlock, AGENT_BEGIN,
    AGENT_END,
};

#[test]
fn managed_agent_block_preserves_existing_content() {
    let original = "# My instructions\r\n\r\nKeep this.\r\n";
    let installed = upsert_managed_block(original).unwrap();
    assert!(installed.starts_with("# My instructions\r\n\r\nKeep this."));
    assert!(installed.contains(AGENT_BEGIN));
    assert!(installed.contains("cf enter"));
    let removed = remove_managed_block_text(&installed).unwrap();
    assert_eq!(removed, original);
}

#[test]
fn managed_agent_block_updates_without_duplication() {
    let first = upsert_managed_block("").unwrap();
    let second = upsert_managed_block(&first).unwrap();
    assert_eq!(second.matches(AGENT_BEGIN).count(), 1);
    assert_eq!(second.matches(AGENT_END).count(), 1);
}

#[test]
fn putting_the_block_in_twice_changes_nothing() {
    for text in ["", "\n\n", "a", "a\r\nb", "a\r", "\r\n", "intro\n\n<!-- other -->\n"] {
        let once = upsert_managed_block(text).unwrap();
        assert_eq!(upsert_managed_block(&once).unwrap(), once);
        assert!(has_agent_block(&once));
        assert_eq!(once.matches(AGENT_BEGIN).count(), 1);
        assert_eq!(once.matches(AGENT_END).count(), 1);
    }
    let stale = format!("before\n{AGENT_BEGIN}\nold\n{AGENT_END}\nafter\n");
    let updated = upsert_managed_block(&stale).unwrap();
    assert_eq!(updated, format!("before\n{}\nafter\n", managed_agent_block("\n")));
    assert_eq!(upsert_managed_block(&updated).unwrap(), updated);
}

#[test]
fn taking_the_block_out_leaves_the_rest() {
    assert_eq!(remove_managed_block_text("plain").unwrap(), "plain");
    assert_eq!(remove_managed_block_text(&upsert_managed_block("").unwrap()).unwrap(), "");
    assert_eq!(remove_managed_block_text(&upsert_managed_block("\n\n\n").unwrap()).unwrap(), "");
    assert_eq!(
        remove_managed_block_text(&upsert_managed_block("a\n\n\n").unwrap()).unwrap(),
        "a\n"
    );
    let block = managed_agent_block("\n");
    assert_eq!(remove_managed_block_text(&format!("\n{block}\n\nb")).unwrap(), "b");
    assert_eq!(remove_managed_block_text(&format!("a\n{block}\n\nb\n")).unwrap(), "a\n\nb\n");
}

#[test]
fn incomplete_blocks_are_refused() {
    for text in [
        AGENT_BEGIN.to_string(),
        AGENT_END.to_string(),
        format!("{AGENT_END}\n{AGENT_BEGIN}"),
    ] {
        assert_eq!(upsert_managed_block(&text), Err(IncompleteBlock));
        assert_eq!(remove_managed_block_text(&text), Err(IncompleteBlock));
    }
    assert!(IncompleteBlock.message().starts_with("found an incomplete CloudFolder managed"));
}

#[test]
fn the_block_takes_the_line_ends_of_the_file() {
    let block = managed_agent_block("\r\n");
    assert!(!block.replace("\r\n", "").contains('\n'));
    assert!(block.starts_with(&format!("{AGENT_BEGIN}\r\n## CloudFolder remote workspaces\r\n")));
    assert!(block.ends_with(&format!("repository-wide CLI work.\r\n{AGENT_END}")));
}

#[test]
fn instruction_files_are_read_as_utf8() {
    assert_eq!(read_text_utf8(&b"\xEF\xBB\xBFabc".to_vec()).unwrap(), "abc");
    assert_eq!(read_text_utf8(&"中文".as_bytes().to_vec()).unwrap(), "中文");
    assert_eq!(read_text_utf8(&Vec::new()).unwrap(), "");
    assert_eq!(
        read_text_utf8(&vec![0xFF, 0xFE, 0x41, 0x00]),
        Err("invalid utf-8 sequence of 1 bytes from index 0".to_string())
    );
    assert_eq!(
        read_text_utf8(&b"\xEF\xBB\xBFab\xE4\xB8".to_vec()),
        Err("incomplete utf-8 byte sequence from index 2".to_string())
    );
    assert_eq!(
        unknown_encoding("f", "why"),
        "f is not UTF-8; CloudFolder will not rewrite an instruction file with an unknown encoding: why"
    );
}

#[test]
fn instruction_files_lie_below_the_user() {
    let codex = CodingAgent {
        label: "Codex".to_string(),
        directory: ".codex".to_string(),
        file: "AGENTS.md".to_string(),
    };
    let other = CodingAgent {
        label: "Other".to_string(),
        directory: ".other".to_string(),
        file: "OTHER.md".to_string(),
    };
    assert_eq!(guided_agents(Vec::new()), vec![codex.clone()]);
    let mut agents = guided_agents(vec![other.clone()]);
    assert_eq!(agents, vec![other, codex]);
    agents.reverse();
    let files = agent_instruction_files(r"C:\Users\Alice", &agents);
    assert_eq!(files[0].path, r"C:\Users\Alice\.codex\AGENTS.md");
    assert_eq!(files[1].path, r"C:\Users\Alice\.other\OTHER.md");
    assert_eq!(
        setup_notice(&files),
        "CloudFolder agent guidance is enabled. Start a new Codex or Other session inside the mounted workspace."
    );
    assert_eq!(configured_notice(&files[0]), r"Configured Codex: C:\Users\Alice\.codex\AGENTS.md");
    assert_eq!(
        removed_notice(&files[0]),
        r"Removed CloudFolder guidance from Codex: C:\Users\Alice\.codex\AGENTS.md"
    );
    let block = managed_agent_block("\n");
    assert_eq!(
        status_line(&files[0], Some(&block)),
        r"Codex: C:\Users\Alice\.codex\AGENTS.md (enabled)"
    );
    assert_eq!(
        status_line(&files[0], Some(AGENT_BEGIN)),
        r"Codex: C:\Users\Alice\.codex\AGENTS.md (not configured)"
    );
    assert_eq!(
        status_line(&files[0], None),
        r"Codex: C:\Users\Alice\.codex\AGENTS.md (not configured)"
    );
}
