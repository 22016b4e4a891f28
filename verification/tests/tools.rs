use lokai_engine::tools::command::{
    command_escapes_workspace, command_has_parent_traversal, command_reads_credential_store,
    command_runs_inline_code, credential_store_name, is_absolute_command_token,
    path_is_credential_store, paths_match,
};
use lokai_engine::tools::detect::{
    check_python_syntax, detect_verify_command, resolve_verify_cmd, verify_toml_command,
    SyntaxCheck, VerifyConfidence, WorkspaceFacts,
};
use lokai_engine::tools::dispatch::{finish_message, is_read_only, tool_requires_capability};
use lokai_engine::tools::types::{ChangeKind, FileChange, ToolError};
use lokai_engine::tools::verify::{format_post_edit_snapshot, snapshot_fits_change};
use lokai_engine::tools::workspace::{
    file_starts_with_sqlite_header, find_similar_paths, normalize_separators,
    sqlite_family_header, sqlite_sidecar_sibling, str_distance, PathCandidate,
};

fn facts() -> WorkspaceFacts {
    WorkspaceFacts {
        lokai_verify_py: false,
        verify_json: None,
        verify_toml: None,
        package_json: None,
        bun_lockb: false,
        bun_lock: false,
        pnpm_lock: false,
        yarn_lock: false,
        go_mod: false,
        cargo_toml: false,
        pytest_ini: false,
        pyproject_toml: None,
        tests_dir_files: None,
        test_dir_files: None,
        cmakelists: false,
        makefile: None,
        pom_xml: false,
        build_gradle: false,
        build_gradle_kts: false,
        windows: false,
    }
}

#[test]
fn detects_lokai_verify_script() {
    let f = WorkspaceFacts {
        lokai_verify_py: true,
        ..facts()
    };
    let d = detect_verify_command(&f).unwrap();
    assert_eq!(d.source, "_lokai_verify.py");
    assert_eq!(d.confidence, VerifyConfidence::High);
    assert!(d.command.contains("_lokai_verify.py"));
    assert!(resolve_verify_cmd(None, &f).is_some());
}

#[test]
fn detects_lokai_verify_toml_high_confidence() {
    let f = WorkspaceFacts {
        verify_toml: Some("command = \"npm run test:fast\"\n".into()),
        ..facts()
    };
    let d = detect_verify_command(&f).unwrap();
    assert_eq!(d.source, ".lokai/verify");
    assert_eq!(d.command, "npm run test:fast");
    assert_eq!(d.confidence, VerifyConfidence::High);
    assert_eq!(
        resolve_verify_cmd(None, &f).as_deref(),
        Some("npm run test:fast")
    );
    assert_eq!(
        verify_toml_command("# c\ncommand = \"make ci\"\n").as_deref(),
        Some("make ci")
    );
}

#[test]
fn detects_cargo() {
    let f = WorkspaceFacts {
        cargo_toml: true,
        ..facts()
    };
    let d = detect_verify_command(&f).unwrap();
    assert_eq!(d.source, "Cargo.toml");
    assert_eq!(d.confidence, VerifyConfidence::Low);
    assert!(resolve_verify_cmd(None, &f).is_none());
    assert_eq!(
        resolve_verify_cmd(Some("auto"), &f).as_deref(),
        Some("cargo test --quiet")
    );
}

#[test]
fn detects_package_json() {
    let f = WorkspaceFacts {
        package_json: Some("{\"scripts\": {\"test\": \"vitest\"}}\n".into()),
        ..facts()
    };
    let d = detect_verify_command(&f).unwrap();
    assert_eq!(d.source, "package.json");
    assert_eq!(d.command, "npm test");
    assert_eq!(d.confidence, VerifyConfidence::Low);
    let bun = WorkspaceFacts { bun_lockb: true, ..f };
    assert_eq!(detect_verify_command(&bun).unwrap().command, "bun test");
}

#[test]
fn detects_go_mod() {
    let f = WorkspaceFacts {
        go_mod: true,
        ..facts()
    };
    let d = detect_verify_command(&f).unwrap();
    assert_eq!(d.source, "go.mod");
    assert_eq!(d.command, "go test ./...");
    assert_eq!(d.confidence, VerifyConfidence::Low);
}

#[test]
fn detects_pytest_tests_dir() {
    let f = WorkspaceFacts {
        tests_dir_files: Some(vec!["test_foo.py".into()]),
        ..facts()
    };
    let d = detect_verify_command(&f).unwrap();
    assert_eq!(d.source, "tests/");
    assert_eq!(d.confidence, VerifyConfidence::Low);
}

#[test]
fn resolve_none_only_high_confidence() {
    assert!(resolve_verify_cmd(None, &facts()).is_none());
    assert!(detect_verify_command(&facts()).is_none());
}

#[test]
fn resolve_explicit_overrides() {
    assert_eq!(
        resolve_verify_cmd(Some("make check"), &facts()).as_deref(),
        Some("make check")
    );
    assert!(resolve_verify_cmd(Some("none"), &facts()).is_none());
    assert!(resolve_verify_cmd(Some("  off "), &facts()).is_none());
}

#[test]
fn sqlite_makefile_is_not_a_verify_command() {
    let mut bytes = b"SQLite format 3\0".to_vec();
    bytes.extend_from_slice(b"test:\nPRIVATECANARY\n");
    assert!(file_starts_with_sqlite_header(&bytes[..16], None));
    // A database is never read as workspace text, so the host reports no Makefile.
    assert!(detect_verify_command(&facts()).is_none());
    let real = WorkspaceFacts {
        makefile: Some("test:\n\tcargo test\n".into()),
        ..facts()
    };
    assert_eq!(detect_verify_command(&real).unwrap().command, "make test");
}

#[test]
fn py_compile_rejects_shell_metachar_in_path() {
    assert!(check_python_syntax("bad;rm.py", true).is_err());
    assert!(check_python_syntax("../up.py", true).is_err());
    assert_eq!(check_python_syntax("ok.py", true).unwrap(), SyntaxCheck::Compile);
    assert_eq!(check_python_syntax("ok.py", false).unwrap(), SyntaxCheck::Skip);
    assert_eq!(check_python_syntax("notes.txt", true).unwrap(), SyntaxCheck::Skip);
}

#[test]
fn shell_refuses_parent_traversal_and_outside_paths() {
    assert!(command_has_parent_traversal("cat ../secret.txt"));
    assert!(!command_has_parent_traversal("type ..\\control.db"));
    assert!(command_escapes_workspace("/home/u/ws", "type ..\\control.db"));
    assert!(!command_has_parent_traversal("echo ok-marker"));
    assert!(command_escapes_workspace("/home/u/ws", "cat ../control.db"));
    assert!(command_escapes_workspace("/home/u/ws", "cat \"/home/u/secret.txt\""));
    assert!(command_escapes_workspace("/home/u/ws", "cat ~/notes"));
    assert!(!command_escapes_workspace("/home/u/ws", "cat /home/u/ws/src/main.rs"));
    assert!(!command_escapes_workspace("/home/u/ws", "echo ok-marker"));
    assert!(is_absolute_command_token("/etc/passwd"));
    assert!(is_absolute_command_token("C:/Windows"));
    assert!(!is_absolute_command_token("src/lib.rs"));
}

#[test]
fn shell_refuses_inline_interpreter_code() {
    assert!(command_runs_inline_code(
        "python -c \"print(open('secret.txt').read())\""
    ));
    assert!(command_runs_inline_code("cmd /c python -c \"print(1)\""));
    assert!(command_runs_inline_code("powershell -Command Get-Content secret.txt"));
    assert!(!command_runs_inline_code("python script.py"));
    assert!(!command_runs_inline_code("echo ok-marker"));
}

#[test]
fn shell_refuses_credential_helpers_and_stores() {
    assert!(command_reads_credential_store("git credential fill"));
    assert!(command_reads_credential_store("cmdkey /list"));
    assert!(!command_reads_credential_store("git status"));
    assert!(credential_store_name(".SSH"));
    assert!(credential_store_name("id_ed25519"));
    assert!(!credential_store_name("README.md"));
    assert!(path_is_credential_store("/ws", "/ws/home/.aws/credentials"));
    assert!(!path_is_credential_store("/ws", "/ws/src/lib.rs"));
    assert!(paths_match("C:\\Work\\Repo", "c:/work/repo"));
    assert!(!paths_match("/a/b", "/a/c"));
}

#[test]
fn sqlite_headers_and_sidecars() {
    assert!(sqlite_family_header(b"SQLite format 3\0"));
    assert!(!sqlite_family_header(b"plain text file!"));
    assert_eq!(sqlite_sidecar_sibling("lokai.db-wal").as_deref(), Some("lokai.db"));
    assert_eq!(sqlite_sidecar_sibling("x-journal").as_deref(), Some("x"));
    assert!(sqlite_sidecar_sibling("-wal").is_none());
    assert!(sqlite_sidecar_sibling("notes.txt").is_none());
    assert!(file_starts_with_sqlite_header(b"anything", Some(b"SQLite format 3\0")));
    assert!(!file_starts_with_sqlite_header(b"anything", None));
}

#[test]
fn edit_distance_and_typo_suggestions() {
    assert_eq!(str_distance("kitten", "sitting"), 3);
    assert_eq!(str_distance("", "abc"), 3);
    assert_eq!(str_distance("same", "same"), 0);
    let cands = vec![
        PathCandidate {
            rel: "src/main.rs".into(),
            file_name: Some("main.rs".into()),
        },
        PathCandidate {
            rel: "docs/readme.md".into(),
            file_name: Some("readme.md".into()),
        },
    ];
    let hint = find_similar_paths("src/mian.rs", "mian.rs", &cands).unwrap();
    assert_eq!(hint, ". Did you mean 'src/main.rs'?");
    let by_name = find_similar_paths("README.md", "README.md", &cands).unwrap();
    assert_eq!(by_name, ". Did you mean 'docs/readme.md'?");
    assert!(find_similar_paths("zzzzzzzzzzzz/qqq", "qqq", &cands).is_none());
    assert_eq!(normalize_separators("a\\b\\c"), "a/b/c");
}

#[test]
fn tool_classes_and_finish() {
    assert!(is_read_only("read_file"));
    assert!(!is_read_only("write_file"));
    assert!(tool_requires_capability("write_file"));
    assert_eq!(finish_message("done testing"), "Task complete: done testing");
}

#[test]
fn tool_error_kinds_and_messages() {
    let e = ToolError::not_found("a.rs".into(), " (did you mean b.rs?)".into());
    assert_eq!(e.kind(), "not_found");
    assert_eq!(e.message(), "path 'a.rs' does not exist (did you mean b.rs?)");
    assert_eq!(ToolError::Ambiguous(3).message(), "old_string is ambiguous: matched 3 times (make it unique)");
    assert_eq!(ToolError::BadArgs("x".into()).kind(), "bad_args");
    assert_eq!(ToolError::ShellNotApproved.kind(), "denied");
    assert_eq!(
        ToolError::OutsideWorkspace("/etc".into()).message(),
        "path '/etc' escapes the workspace root"
    );
}

#[test]
fn snapshot_of_new_and_large_files() {
    let created = FileChange {
        path: "n.py".into(),
        kind: ChangeKind::Create,
        before: None,
        after: Some(String::new()),
    };
    assert!(snapshot_fits_change(&created));
    assert_eq!(
        format_post_edit_snapshot(&created),
        "\n[post-edit snapshot of n.py]\n(file is empty)"
    );
    let after: String = (1..=100).map(|i| format!("l{i}\n")).collect();
    let mut before_lines: Vec<String> = (1..=100).map(|i| format!("l{i}")).collect();
    before_lines[49] = "old".into();
    let big = FileChange {
        path: "b.py".into(),
        kind: ChangeKind::Edit,
        before: Some(before_lines.join("\n")),
        after: Some(after),
    };
    assert!(snapshot_fits_change(&big));
    let snap = format_post_edit_snapshot(&big);
    assert!(snap.starts_with("\n[post-edit snapshot of b.py (lines 38–62)]\n"));
    assert!(snap.contains("    50| l50"));
    let deleted = FileChange {
        path: "d.py".into(),
        kind: ChangeKind::Delete,
        before: Some("x".into()),
        after: None,
    };
    assert_eq!(format_post_edit_snapshot(&deleted), "");
}

use lokai_engine::tools::command::{command_targets_reserved_store, path_is_reserved, reserve_file, ReservedFile};
use lokai_engine::tools::dispatch::{args_shape, ArgsShape, ToolName};
use lokai_engine::tools::grep::{grep_limit, grep_report, sort_hits, GrepHit};
use lokai_engine::tools::listing::{dir_entry_name, dir_listing, glob_listing, sort_texts};
use lokai_engine::tools::read::{read_title, resolve_read_target, select_lines};

#[test]
fn read_file_shorthand_and_window() {
    let t = resolve_read_target("src/a.rs:10-20", None, None);
    assert_eq!((t.path.as_str(), t.start_line, t.end_line), ("src/a.rs", Some(10), Some(20)));
    let t = resolve_read_target("src/a.rs:7", None, None);
    assert_eq!((t.start_line, t.end_line), (Some(7), Some(57)));
    let t = resolve_read_target("src/a.rs:x-2", None, None);
    assert_eq!(t.path, "src/a.rs:x-2");
    let t = resolve_read_target("a.rs:3", Some(1), None);
    assert_eq!((t.path.as_str(), t.start_line), ("a.rs:3", Some(1)));
    let text = "one\ntwo\r\nthree\nfour";
    assert_eq!(select_lines(text, Some(2), Some(3)), "     2| two\n     3| three");
    assert_eq!(select_lines(text, Some(0), Some(1)), "     1| one");
    assert_eq!(select_lines(text, Some(4), None), "     4| four");
    assert_eq!(select_lines(text, Some(9), None), "");
    assert_eq!(read_title("a.rs", "héllo"), "read a.rs (6 bytes)");
}

fn hit(path: &str, line: usize, text: &str) -> GrepHit {
    GrepHit {
        path: path.into(),
        line,
        text: text.into(),
    }
}

#[test]
fn grep_hits_sorted_and_capped() {
    let hits = vec![hit("b.rs", 2, "y"), hit("a.rs", 10, "x"), hit("a.rs", 2, "w"), hit("B.rs", 1, "z")];
    let sorted = sort_hits(hits);
    let order: Vec<(String, usize)> = sorted.iter().map(|h| (h.path.clone(), h.line)).collect();
    assert_eq!(
        order,
        vec![("B.rs".into(), 1), ("a.rs".into(), 2), ("a.rs".into(), 10), ("b.rs".into(), 2)]
    );
    let again = vec![hit("b.rs", 2, "y"), hit("a.rs", 10, "x"), hit("a.rs", 2, "w")];
    let r = grep_report(again, 2, "fn main");
    assert_eq!(r.title, "2 match(es) for /fn main/");
    assert_eq!(r.body, "a.rs:2: w\na.rs:10: x");
    assert_eq!(grep_limit(None), 100);
    assert_eq!(grep_limit(Some(5)), 5);
}

#[test]
fn glob_and_dir_listings_are_sorted() {
    let s = sort_texts(vec!["b".into(), "a/".into(), "A".into()]);
    assert_eq!(s, vec!["A".to_string(), "a/".to_string(), "b".to_string()]);
    let g = glob_listing(vec!["src/z.rs".into(), "src/a.rs".into()], "**/*.rs");
    assert_eq!(g.title, "2 file(s) match '**/*.rs'");
    assert_eq!(g.body, "src/a.rs\nsrc/z.rs");
    let d = dir_listing(vec![dir_entry_name("src", true), dir_entry_name("Cargo.toml", false)], ".");
    assert_eq!(d.title, "2 entries in .");
    assert_eq!(d.body, "Cargo.toml\nsrc/");
}

#[test]
fn reserved_store_commands_are_refused() {
    let mut reserved = Vec::new();
    reserve_file(
        &mut reserved,
        ReservedFile {
            path: "C:\\Data\\Lokai.db".into(),
            file_name: Some("Lokai.db".into()),
        },
    );
    reserve_file(
        &mut reserved,
        ReservedFile {
            path: "c:/data/lokai.db".into(),
            file_name: Some("lokai.db".into()),
        },
    );
    assert_eq!(reserved.len(), 1);
    assert!(path_is_reserved(&reserved, "c:/DATA/lokai.db"));
    assert!(command_targets_reserved_store(&reserved, "type lokai.db"));
    assert!(command_targets_reserved_store(&reserved, "cat C:\\data\\LOKAI.DB"));
    assert!(command_targets_reserved_store(&reserved, "cat ../x"));
    assert!(!command_targets_reserved_store(&reserved, "echo ok-marker"));
    assert!(!command_targets_reserved_store(&[], "cat ../x"));
}

#[test]
fn tool_args_shapes() {
    assert_eq!(args_shape("read_file"), Ok(ArgsShape::Tool(ToolName::ReadFile)));
    assert_eq!(args_shape("find_references"), Ok(ArgsShape::Tool(ToolName::FindMentions)));
    assert_eq!(args_shape("spawn_agent"), Ok(ArgsShape::SpawnAgent));
    assert_eq!(args_shape("nope"), Err("unknown tool 'nope'".to_string()));
}

use lokai_engine::tools::pattern::{compile_line_pattern, compile_path_pattern, file_hits, path_matches};
use lokai_engine::tools::toolset::{
    advertised_tools, allow_tool, index_tool_defs, is_tool_allowed, lsp_tool_defs, tool_defs,
    ToolsetConfig,
};

#[test]
fn grep_patterns_find_matching_lines() {
    let p = compile_line_pattern(r"fn \w+\(").unwrap();
    let hits = file_hits(&p, "src/lib.rs", "use x;\nfn main() {  \n}\npub fn go(a: u8)\n");
    assert_eq!(hits.len(), 2);
    assert_eq!((hits[0].line, hits[0].text.as_str()), (2, "fn main() {"));
    assert_eq!((hits[1].path.as_str(), hits[1].line), ("src/lib.rs", 4));
    match compile_line_pattern("foo(bar") {
        Err(ToolError::BadArgs(m)) => assert!(m.contains("unclosed")),
        _ => panic!("bad regex accepted"),
    }
}

#[test]
fn glob_patterns_match_paths() {
    let p = compile_path_pattern("src/**/*.rs").unwrap();
    assert!(path_matches(&p, "src/a/b.rs"));
    assert!(!path_matches(&p, "docs/a.md"));
    assert!(matches!(compile_path_pattern("a[b"), Err(ToolError::BadArgs(_))));
}

#[test]
fn advertised_catalogue_follows_configuration() {
    let base = ToolsetConfig {
        allow_shell: false,
        has_index: true,
        has_memory: true,
        recall_scoped: true,
        has_lsp: false,
        orchestration: vec![],
        allowed: None,
    };
    let names: Vec<&str> = advertised_tools(&base).iter().map(|e| e.name).collect();
    assert_eq!(
        names,
        vec![
            "read_file", "list_dir", "grep", "glob", "edit_file", "write_file", "finish",
            "find_definition", "search_code", "outline", "find_mentions", "find_references",
            "recall"
        ]
    );
    let recall = advertised_tools(&base).into_iter().last().unwrap();
    assert!(recall.description.starts_with("Search authorized messages"));
    let mut allowed = Some(vec!["read_file".to_string()]);
    allow_tool(&mut allowed, "grep");
    allow_tool(&mut allowed, "grep");
    assert_eq!(allowed.as_ref().unwrap().len(), 2);
    assert!(is_tool_allowed(&allowed, "grep"));
    assert!(!is_tool_allowed(&allowed, "run_shell"));
    assert!(is_tool_allowed(&None, "anything"));
    let restricted = ToolsetConfig {
        allow_shell: true,
        allowed,
        ..base
    };
    let names: Vec<&str> = advertised_tools(&restricted).iter().map(|e| e.name).collect();
    assert_eq!(names, vec!["read_file", "grep"]);
}

#[test]
fn catalogues_list_their_tools_in_order() {
    let names: Vec<&str> = tool_defs().iter().map(|e| e.name).collect();
    assert_eq!(
        names,
        vec!["read_file", "list_dir", "grep", "glob", "edit_file", "write_file", "run_shell", "finish"]
    );
    assert!(tool_defs().iter().filter(|e| e.mutating).count() == 3);
    let index: Vec<&str> = index_tool_defs().iter().map(|e| e.name).collect();
    assert_eq!(
        index,
        vec!["find_definition", "search_code", "outline", "find_mentions", "find_references"]
    );
    let lsp: Vec<&str> = lsp_tool_defs().iter().map(|e| e.name).collect();
    assert_eq!(lsp, vec!["lsp_goto_definition", "lsp_find_references", "lsp_diagnostics"]);
    assert!(lsp_tool_defs().iter().all(|e| !e.mutating));
}

use lokai_engine::tools::retrieval::{
    find_definition_report, find_mentions_report, mentions_limit, outline_report_of,
    recall_context_report, recall_limit, recall_report_of, recall_snippet, search_code_report,
    search_limit, ContextRecallHit, DefinitionHit, MentionHit, OutlineRow, RecallHit, SearchHit,
};

#[test]
fn retrieval_limits_default_and_cap() {
    assert_eq!(search_limit(None), 10);
    assert_eq!(search_limit(Some(500)), 50);
    assert_eq!(search_limit(Some(3)), 3);
    assert_eq!(mentions_limit(None), 30);
    assert_eq!(mentions_limit(Some(101)), 100);
    assert_eq!(recall_limit(None), 8);
    assert_eq!(recall_limit(Some(25)), 20);
}

#[test]
fn definition_and_search_reports() {
    let r = find_definition_report("foo", &vec![]);
    assert_eq!(r.title, "no definition for 'foo'");
    assert_eq!(r.body, "No indexed definition named 'foo'. Try search_code or grep.");
    let defs = vec![
        DefinitionHit { kind: "fn".into(), rel: "src/a.rs".into(), start_line: 12, signature: "fn foo()  ".into() },
        DefinitionHit { kind: "struct".into(), rel: "src/b.rs".into(), start_line: 3, signature: "".into() },
    ];
    let r = find_definition_report("foo", &defs);
    assert_eq!(r.title, "2 definition(s) for 'foo'");
    assert_eq!(r.body, "fn src/a.rs:12  fn foo()\nstruct src/b.rs:3");
    let r = search_code_report("q", &vec![]);
    assert_eq!(r.title, "no matches for 'q'");
    assert_eq!(r.body, "No indexed matches. Try different terms, or grep for a regex.");
    let hits = vec![
        SearchHit { rel: "a.rs".into(), start_line: 1, end_line: 4, symbol_name: "main".into(), preview: "fn main".into() },
        SearchHit { rel: "b.rs".into(), start_line: 7, end_line: 7, symbol_name: "".into(), preview: "x".into() },
    ];
    let r = search_code_report("q", &hits);
    assert_eq!(r.title, "2 match(es) for 'q'");
    assert_eq!(r.body, "a.rs:1-4 [main]  fn main\nb.rs:7-7  x");
}

#[test]
fn outline_mentions_and_recall_reports() {
    let r = outline_report_of("src/x.rs", &vec![]);
    assert_eq!(r.title, "no outline for src/x.rs");
    assert_eq!(r.body, "No indexed symbols in src/x.rs (read_file to view it).");
    let rows = vec![
        OutlineRow { depth: 0, kind: "impl".into(), name: "S".into(), start_line: 2 },
        OutlineRow { depth: 2, kind: "fn".into(), name: "go".into(), start_line: 5 },
    ];
    let r = outline_report_of("src/x.rs", &rows);
    assert_eq!(r.title, "2 symbol(s) in src/x.rs");
    assert_eq!(r.body, "impl S :2\n    fn go :5");
    let r = find_mentions_report("S", &vec![]);
    assert_eq!(r.title, "no mentions of 'S'");
    assert!(r.body.contains("keyword search — try lsp_find_references"));
    let r = find_mentions_report("S", &vec![MentionHit { rel: "y.rs".into(), start_line: 3, end_line: 9, preview: "S::new".into() }]);
    assert_eq!((r.title.as_str(), r.body.as_str()), ("1 mention(s) of 'S'", "y.rs:3-9  S::new"));
    let r = recall_context_report(&vec![ContextRecallHit { session_id: "s1".into(), label: "user".into(), snippet: "hi".into() }]);
    assert_eq!(r.title, "1 authorized message hit(s)");
    assert_eq!(r.body, "<untrusted recall>\n[s1 user] hi\n</untrusted recall>");
    assert_eq!(recall_snippet("tool", "out"), "<untrusted recall>\nout\n</untrusted recall>");
    assert_eq!(recall_snippet("message", "out"), "out");
    let hits = vec![
        RecallHit { started_at: "t0".into(), kind: "tool".into(), label: "grep".into(), session_id: "s2".into(), snippet: "r".into(), class_name: Some("secret".into()) },
        RecallHit { started_at: "t1".into(), kind: "message".into(), label: "user".into(), session_id: "s3".into(), snippet: "m".into(), class_name: None },
    ];
    let r = recall_report_of("q", &hits);
    assert_eq!(r.title, "2 recall hit(s) for 'q'");
    assert_eq!(
        r.body,
        "[class:secret] [t0 tool grep] s2: <untrusted recall>\nr\n</untrusted recall>\n[t1 message user] s3: m"
    );
    let r = recall_report_of("q", &vec![]);
    assert_eq!(r.title, "no recall hits for 'q'");
}

#[test]
fn long_snapshot_shows_at_most_25_lines_within_the_file() {
    for change_at in [0usize, 5, 50, 99, 104] {
        let before: Vec<String> = (0..100).map(|i| format!("line {i}")).collect();
        let mut after = before.clone();
        if change_at < 100 {
            after[change_at] = "changed".into();
        } else {
            after.push("extra".into());
        }
        let n = after.len();
        let change = FileChange {
            path: "f.rs".into(),
            kind: ChangeKind::Edit,
            before: Some(before.join("\n")),
            after: Some(after.join("\n")),
        };
        let snap = format_post_edit_snapshot(&change);
        let body_lines = snap.lines().skip(2).count();
        assert!(body_lines <= 25, "{body_lines}");
        let header = snap.lines().nth(1).unwrap();
        let range = header.split("(lines ").nth(1).unwrap().trim_end_matches(")]");
        let (s, e) = range.split_once('–').unwrap();
        let (s, e): (usize, usize) = (s.parse().unwrap(), e.parse().unwrap());
        assert!(1 <= s && s <= e && e <= n, "{s} {e} {n}");
    }
}

#[test]
fn glob_without_backslashes_compiles_and_matches() {
    let p = compile_path_pattern("*.toml").unwrap();
    assert!(path_matches(&p, "Cargo.toml"));
    assert!(!path_matches(&p, "Cargo.lock"));
    assert!(matches!(compile_path_pattern("{a,b"), Err(ToolError::BadArgs(m)) if !m.is_empty()));
}
