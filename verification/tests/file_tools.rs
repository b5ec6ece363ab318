use std::collections::BTreeMap;

use smolgent::json::JsonText;
use smolgent::path::{normalize_lexically, FilePath, PathComponent};
use smolgent::tools::builtin::{BuiltinKind, BuiltinSchemas, BuiltinTool};
use smolgent::tools::compact::{definitions, COMPACT_REMOVE_MESSAGES};
use smolgent::tools::file::apply::{
    Commit, CommitAction, DiskFact, DiskNeed, FileSnapshot, PatchRun,
};
use smolgent::tools::file::change::{FileRemoval, FileWrite};
use smolgent::tools::file::page::{
    PageStep, READ_MAX_CHARS, READ_MAX_LINES, READ_TRUNCATION_NOTICE,
};
use smolgent::tools::file::patch::{
    apply_hunks, lines_to_text, parse_patch, Hunk, HunkLine, PatchOperation,
};
use smolgent::tools::file::{
    answer_search, check_delete, ensure_can_read, ensure_can_write, read_search_output,
    sanitize_tool_output,
};
use smolgent::tools::read::ReadStep;
use smolgent::{
    apply_patch_tool, builtin_registry, create_file_tool, delete_file_tool, read_tool,
    ripgrep_tool, AgentState, CreateFileArgs, DeleteFileArgs, Error, ReadArgs, RgArgs,
};

fn path(text: &str) -> FilePath {
    let mut parts = Vec::new();
    for (i, piece) in text.split('/').enumerate() {
        match piece {
            "" if i == 0 => parts.push(PathComponent::Root),
            "" => {}
            "." => parts.push(PathComponent::Current),
            ".." => parts.push(PathComponent::Parent),
            name => parts.push(PathComponent::Normal(name.to_string())),
        }
    }
    FilePath { parts }
}

fn windows(names: &[&str]) -> FilePath {
    let mut parts = vec![
        PathComponent::Prefix(r"\\?\C:".to_string()),
        PathComponent::Root,
    ];
    for name in names {
        parts.push(PathComponent::Normal(name.to_string()));
    }
    FilePath { parts }
}

fn text_of(path: &FilePath) -> String {
    path.text('/')
}

fn args(path: &str) -> ReadArgs {
    ReadArgs {
        path: path.to_string(),
        character_offset: None,
        line_offset: None,
        character_count: None,
        line_count: None,
    }
}

/// What reading `content` shows, the file being read as little as possible.
fn read(content: &str, args: &ReadArgs) -> Result<String, Error> {
    let mut reader = args.reader()?;
    let mut lines = content.split_inclusive('\n');
    loop {
        match reader.on_line(lines.next().map(String::from)) {
            PageStep::ReadLine => {}
            PageStep::Probe => return Ok(reader.on_probe(lines.next().is_some())),
            PageStep::Done(page) => return Ok(page),
        }
    }
}

/// A whole call of a `read` tool, on a file with these contents, or on a directory.
fn read_file(tool: &BuiltinTool, file: &str, content: Option<&str>) -> Result<String, Error> {
    let normalized = normalize_lexically(&path(file));
    let name = file.rsplit('/').next();
    match tool.begin_read(args(file), name, normalized, '/')? {
        ReadStep::Media(_) => panic!("no media is read"),
        ReadStep::Text(text) => {
            text.on_found(content.is_none())?;
            text.on_opened()?;
            read(content.unwrap(), &args(file))
        }
    }
}

#[test]
fn read_tool_validates_read_roots() {
    let state = AgentState::new(&vec![path("/tmp/allowed")], &vec![]);
    let file = "/tmp/allowed/note.txt";
    let tool = read_tool(state.clone(), schemas().read);
    let reader = tool.handler();
    assert_eq!(read_file(reader, file, Some("hello")).unwrap(), "hello");
    for denied in ["/tmp/denied/secret.txt", "/tmp/allowed/../denied/secret.txt", "/tmp"] {
        assert_eq!(
            read_file(reader, denied, Some("hello")).unwrap_err(),
            Error::PathNotAllowed {
                path: denied.to_string(),
                access: "read".to_string(),
            }
        );
    }
    assert_eq!(
        ensure_can_read(&state, file, path(file)).unwrap(),
        path(file)
    );
    assert!(ensure_can_write(&state, file, path(file)).is_err());
    let directory_error = read_file(reader, "/tmp/allowed", None).unwrap_err().to_string();
    assert!(directory_error.contains("not directories"));
}

#[test]
fn read_tool_caps_lines_and_reports_truncation() {
    let content = (1..=101)
        .map(|line| format!("line {line}\n"))
        .collect::<String>();
    let output = read(&content, &args("long.txt")).unwrap();
    assert!(output.contains("line 100\n"));
    assert!(!output.contains("line 101\n"));
    assert!(output.contains("[Read truncated:"));
}

#[test]
fn read_tool_caps_unicode_characters_not_bytes() {
    let output = read(&"é".repeat(READ_MAX_CHARS + 1), &args("characters.txt")).unwrap();
    let content = output.split(READ_TRUNCATION_NOTICE).next().unwrap();
    assert_eq!(content.chars().count(), READ_MAX_CHARS);
    assert!(output.ends_with(READ_TRUNCATION_NOTICE));
}

#[test]
fn read_tool_does_not_mark_exact_limit_at_eof_as_truncated() {
    let output = read(&"x".repeat(READ_MAX_CHARS), &args("exact.txt")).unwrap();
    assert_eq!(output.chars().count(), READ_MAX_CHARS);
    assert!(!output.contains("[Read truncated:"));
    let lines = "x\n".repeat(READ_MAX_LINES);
    assert_eq!(read(&lines, &args("exact.txt")).unwrap(), lines);
}

#[test]
fn read_tool_applies_line_offset_and_count() {
    let output = read(
        "zero\none\ntwo\nthree\n",
        &ReadArgs {
            line_offset: Some(1),
            line_count: Some(2),
            ..args("lines.txt")
        },
    )
    .unwrap();
    assert!(output.starts_with("one\ntwo\n"));
    assert!(output.ends_with(READ_TRUNCATION_NOTICE));
}

#[test]
fn read_tool_applies_unicode_character_offset_and_count() {
    let output = read(
        "aé日bc",
        &ReadArgs {
            character_offset: Some(1),
            character_count: Some(3),
            ..args("characters.txt")
        },
    )
    .unwrap();
    assert!(output.starts_with("é日b"));
    assert!(output.ends_with(READ_TRUNCATION_NOTICE));
}

#[test]
fn read_tool_composes_line_then_character_offsets() {
    let output = read(
        "skip\néclair\nlast\n",
        &ReadArgs {
            line_offset: Some(1),
            character_offset: Some(1),
            line_count: Some(1),
            ..args("combined.txt")
        },
    )
    .unwrap();
    assert!(output.starts_with("clair\n"));
    assert!(output.ends_with(READ_TRUNCATION_NOTICE));
}

#[test]
fn pages_behind_the_end_are_empty_and_zero_counts_are_refused() {
    for (line_offset, character_offset) in [(Some(9), None), (None, Some(99)), (Some(2), Some(1))] {
        let output = read(
            "a\nb\n",
            &ReadArgs {
                line_offset,
                character_offset,
                ..args("short.txt")
            },
        )
        .unwrap();
        assert_eq!(output, "");
    }
    assert_eq!(read("", &args("empty.txt")).unwrap(), "");
    for (line_count, character_count) in [(Some(0), None), (None, Some(0))] {
        assert_eq!(
            read(
                "a",
                &ReadArgs {
                    line_count,
                    character_count,
                    ..args("a.txt")
                }
            )
            .unwrap_err(),
            Error::Tool("line-count and character-count must be positive when provided".into())
        );
    }
}

#[test]
fn pages_put_together_are_the_file() {
    let content: String = (0..37).map(|i| format!("line {i} é\n")).collect();
    let mut whole = String::new();
    loop {
        let page = read(
            &content,
            &ReadArgs {
                character_offset: Some(whole.chars().count()),
                character_count: Some(25),
                ..args("pages.txt")
            },
        )
        .unwrap();
        match page.strip_suffix(READ_TRUNCATION_NOTICE) {
            Some(part) => whole.push_str(part),
            None => {
                whole.push_str(&page);
                break;
            }
        }
    }
    assert_eq!(whole, content);
}

/// A whole call of `create_file`.
fn create(state: &AgentState, disk: &mut Disk, args: CreateFileArgs) -> Result<String, Error> {
    let text = args.path.clone();
    let creation = args.begin(state, normalize_lexically(&path(&text)), '/')?;
    let exists = disk.contains_key(&text_of(creation.path()));
    let FileWrite {
        path,
        content,
        report,
        ..
    } = creation.on_found(exists)?;
    disk.insert(text_of(&path), content);
    Ok(report)
}

/// A whole call of `delete_file`.
fn delete(state: &AgentState, disk: &mut Disk, file: &str) -> Result<String, Error> {
    let args = DeleteFileArgs {
        path: file.to_string(),
    };
    let deletion = args.begin(state, normalize_lexically(&path(file)), '/')?;
    let name = text_of(deletion.path());
    let below = format!("{name}/");
    let directory = disk.keys().any(|other| other.starts_with(&below));
    let exists = directory || disk.contains_key(&name);
    let FileRemoval { path, report } = deletion.on_found(exists, directory)?;
    disk.remove(&text_of(&path));
    Ok(report)
}

fn creation(file: &str, overwrite: bool) -> CreateFileArgs {
    CreateFileArgs {
        path: file.to_string(),
        content: "hello".to_string(),
        overwrite,
        create_parent_dirs: true,
    }
}

#[test]
fn create_and_delete_file_tools_validate_write_roots() {
    let state = AgentState::new(&vec![], &vec![path("/tmp/allowed")]);
    let file = "/tmp/allowed/nested/note.txt";
    let mut files = disk(&[]);
    assert!(create(&state, &mut files, creation(file, false))
        .unwrap()
        .contains("created"));
    assert_eq!(files, disk(&[(file, "hello")]));
    let duplicate = create(&state, &mut files, creation(file, false)).unwrap_err();
    assert!(duplicate.to_string().contains("overwrite=true"));
    assert!(create(&state, &mut files, creation(file, true)).is_ok());
    let before = files.clone();
    for denied in ["/tmp/denied/note.txt", "/tmp/allowed/../denied/note.txt"] {
        let refused = Error::PathNotAllowed {
            path: denied.to_string(),
            access: "write".to_string(),
        };
        for overwrite in [false, true] {
            assert_eq!(
                create(&state, &mut files, creation(denied, overwrite)).unwrap_err(),
                refused
            );
        }
        assert_eq!(delete(&state, &mut files, denied).unwrap_err(), refused);
    }
    assert_eq!(files, before);
    assert_eq!(
        delete(&state, &mut files, file).unwrap(),
        "deleted /tmp/allowed/nested/note.txt"
    );
    assert!(files.is_empty());
    assert_eq!(
        delete(&state, &mut files, file).unwrap_err(),
        Error::Tool(format!("cannot delete missing file: {file}"))
    );
}

#[test]
fn delete_file_tool_rejects_directories() {
    let state = AgentState::new(&vec![], &vec![path("/tmp")]);
    let mut files = disk(&[("/tmp/directory/file", "kept")]);
    let error = delete(&state, &mut files, "/tmp/directory").unwrap_err();
    assert!(error.to_string().contains("not directories"));
    assert_eq!(files.len(), 1);
    assert!(check_delete("/tmp/directory", true, true).is_err());
}

fn schemas() -> BuiltinSchemas {
    let schema = |text: &str| JsonText::parse(text).unwrap();
    BuiltinSchemas {
        read: schema(
            r#"{"properties":{"path":{},"character-offset":{},"line-offset":{},"character-count":{},"line-count":{}}}"#,
        ),
        create_file: schema(r#"{"properties":{"path":{},"content":{}}}"#),
        delete_file: schema(r#"{"properties":{"path":{}}}"#),
        apply_patch: schema(r#"{"properties":{"patch":{}}}"#),
        ripgrep: schema(r#"{"properties":{"pattern":{}}}"#),
    }
}

fn properties(parameters: &JsonText) -> Vec<String> {
    let value: serde_json::Value = serde_json::from_str(parameters.as_str()).unwrap();
    value["properties"].as_object().unwrap().keys().cloned().collect()
}

#[test]
fn builtin_registry_includes_write_file_tools_by_default() {
    let registry = builtin_registry(AgentState::default(), &schemas());

    assert!(registry.get("create_file").is_some());
    assert!(registry.get("delete_file").is_some());
    let names: Vec<String> = registry
        .definitions()
        .iter()
        .map(|definition| definition.name().to_string())
        .collect();
    assert_eq!(
        names,
        vec!["read", "create_file", "delete_file", "apply_patch", "ripgrep"]
    );
    assert_eq!(
        registry.get("apply_patch").unwrap().handler().kind,
        BuiltinKind::ApplyPatch
    );
}

/// Schemas are generated outside the library. The tool has to carry the one that it is given.
#[test]
fn read_tool_carries_the_schema_that_it_is_given() {
    let tool = read_tool(AgentState::default(), schemas().read);
    let properties = properties(&tool.definition().function.parameters);
    for name in [
        "character-offset",
        "line-offset",
        "character-count",
        "line-count",
    ] {
        assert!(properties.contains(&name.to_string()), "missing {name}");
    }
}

/// The descriptions are the library's; the schema is handed in, and has to be carried along.
#[test]
fn builtin_tool_definitions_explain_parameters() {
    let state = AgentState::default();
    let read = read_tool(state.clone(), schemas().read);
    let create = create_file_tool(state.clone(), schemas().create_file);
    let delete = delete_file_tool(state.clone(), schemas().delete_file);
    let patch = apply_patch_tool(state.clone(), schemas().apply_patch);
    let rg = ripgrep_tool(state, schemas().ripgrep);

    assert!(read.definition().function.description.contains("Example"));
    assert!(create
        .definition()
        .function
        .description
        .contains("overwrite"));
    assert!(delete
        .definition()
        .function
        .description
        .contains("not a directory"));
    assert!(patch
        .definition()
        .function
        .description
        .contains("Update File"));
    assert!(rg
        .definition()
        .function
        .description
        .contains("fixed_strings"));
    assert!(properties(&rg.definition().function.parameters).contains(&"pattern".to_string()));
}

/// Schemas are generated outside the library. The definitions have to carry those that they are
/// given, each its own.
#[test]
fn compaction_definitions_carry_the_schemas_that_they_are_given() {
    let remove = JsonText::parse(
        r#"{"properties":{"turn_ids":{"description":"Stable turn IDs to remove from the active context."}}}"#,
    )
    .unwrap();
    let definitions = definitions(remove, JsonText::empty_object());
    let remove = definitions
        .iter()
        .find(|definition| definition.name() == COMPACT_REMOVE_MESSAGES)
        .unwrap();
    let value: serde_json::Value =
        serde_json::from_str(remove.function.parameters.as_str()).unwrap();
    assert_eq!(
        value["properties"]["turn_ids"]["description"],
        "Stable turn IDs to remove from the active context."
    );
    assert!(remove.function.description.contains("stale read/ripgrep"));
}

// ---------------------------------------------------------------------------------------------
// Searching
// ---------------------------------------------------------------------------------------------

#[test]
fn ripgrep_file_listing_describes_an_empty_directory() {
    for (succeeded, code) in [(true, Some(0)), (false, Some(1))] {
        assert_eq!(
            read_search_output(true, succeeded, code, "exit status: 1", b"", b" \n").unwrap(),
            "No files found under the requested paths."
        );
    }
}

/// What ripgrep is called with for these paths.
fn search(state: &AgentState, paths: &[&str]) -> Result<Vec<String>, Error> {
    let texts: Vec<String> = paths.iter().map(|text| text.to_string()).collect();
    let normalized = paths
        .iter()
        .map(|text| normalize_lexically(&path(text)))
        .collect();
    RgArgs {
        pattern: Some("ToolRegistry".into()),
        paths: texts,
        line_number: true,
        ..RgArgs::default()
    }
    .arguments(state, &normalized, '/')
}

#[test]
fn ripgrep_tool_searches_allowed_paths() {
    let state = AgentState::new(&vec![path("/tmp/allowed")], &vec![]);
    assert_eq!(
        search(&state, &["/tmp/allowed/src"]).unwrap(),
        vec!["--no-config", "--line-number", "ToolRegistry", "/tmp/allowed/src"]
    );
    // What is searched is the path that was checked, not the one that was asked for.
    assert_eq!(
        search(&state, &["/tmp/allowed/a/../b"]).unwrap()[3],
        "/tmp/allowed/b"
    );
    let output = read_search_output(
        false,
        true,
        Some(0),
        "exit status: 0",
        b"1:pub struct ToolRegistry;\n",
        b"",
    )
    .unwrap();
    assert!(output.contains("ToolRegistry"));
}

#[test]
fn ripgrep_searches_nothing_where_one_path_is_refused() {
    let state = AgentState::new(&vec![path("/tmp/allowed")], &vec![path("/tmp/written")]);
    assert!(search(&state, &["/tmp/allowed", "/tmp/written/a"]).is_ok());
    for (paths, refused) in [
        (vec!["/tmp/allowed", "/tmp/denied", "/etc"], "/tmp/denied"),
        (vec!["/tmp/allowed/../denied"], "/tmp/allowed/../denied"),
        (vec!["/tmp"], "/tmp"),
    ] {
        assert_eq!(
            search(&state, &paths).unwrap_err(),
            Error::PathNotAllowed {
                path: refused.to_string(),
                access: "read".to_string(),
            }
        );
    }
    assert_eq!(
        search(&state, &[]).unwrap_err(),
        Error::Tool("ripgrep requires at least one path under an allowed read root".into())
    );
}

#[test]
fn ripgrep_answers_by_how_it_ended() {
    assert_eq!(
        answer_search(false, true, Some(0), "", "", "warning").unwrap(),
        "No matches found."
    );
    assert_eq!(
        answer_search(false, false, Some(1), "", "", "").unwrap(),
        "No matches found."
    );
    assert_eq!(
        answer_search(false, false, Some(1), "", "a\n", "b\n").unwrap(),
        "a\nb\n"
    );
    for code in [Some(2), None] {
        assert_eq!(
            answer_search(false, false, code, "exit status: 2", "out", "bad regex").unwrap_err(),
            Error::Tool("ripgrep failed with status exit status: 2: bad regex".into())
        );
    }
    assert_eq!(
        read_search_output(false, true, Some(0), "", b"a\xffb", b"").unwrap(),
        "a\u{fffd}b"
    );
    assert_eq!(
        sanitize_tool_output(r"\\?\UNC\srv\x:1 \\?\C:\a:2"),
        r"\\srv\x:1 C:\a:2"
    );
}

#[test]
fn ripgrep_is_called_with_what_was_asked_for() {
    let state = AgentState::new(&vec![path("/"), windows(&[])], &vec![]);
    let search = RgArgs {
        pattern: Some("TODO".into()),
        paths: vec!["a".into(), "b".into()],
        fixed_strings: true,
        ignore_case: true,
        smart_case: true,
        line_number: true,
        context: Some(3),
        glob: vec!["*.rs".into(), "!target/**".into()],
        max_count: Some(10),
        files_with_matches: true,
        files: false,
    };
    assert!(search.check().is_ok());
    assert_eq!(
        search
            .arguments(&state, &vec![path("/a"), windows(&["b"])], '\\')
            .unwrap(),
        vec![
            "--no-config",
            "--fixed-strings",
            "--ignore-case",
            "--smart-case",
            "--line-number",
            "--files-with-matches",
            "--context",
            "3",
            "--max-count",
            "10",
            "--glob",
            "*.rs",
            "--glob",
            "!target/**",
            "TODO",
            r"\a",
            r"C:\b",
        ]
    );
    let listing = RgArgs {
        files: true,
        paths: vec!["a".into()],
        ..search
    };
    assert_eq!(
        listing
            .arguments(&state, &vec![path("/a")], '/')
            .unwrap(),
        vec!["--no-config", "--files", "/a"]
    );
    assert_eq!(
        RgArgs::default().check().unwrap_err(),
        Error::Tool("ripgrep requires at least one path under an allowed read root".into())
    );
    for pattern in [None, Some(String::new())] {
        let error = RgArgs {
            pattern,
            paths: vec!["src".into()],
            ..RgArgs::default()
        }
        .check()
        .unwrap_err();
        assert_eq!(
            error,
            Error::Tool("ripgrep requires `pattern` unless `files` is true".into())
        );
    }
    assert!(RgArgs {
        files: true,
        paths: vec!["src".into()],
        ..RgArgs::default()
    }
    .check()
    .is_ok());
}

// ---------------------------------------------------------------------------------------------
// Patching
// ---------------------------------------------------------------------------------------------

type Disk = BTreeMap<String, String>;

fn commit(disk: &mut Disk, commit: &mut Commit, fails_on: Option<&str>) -> Result<(), Error> {
    loop {
        match commit.action() {
            CommitAction::Capture(path) => {
                commit.on_captured(Ok(match disk.get(&text_of(&path)) {
                    Some(content) => FileSnapshot::File(content.clone()),
                    None => FileSnapshot::Missing,
                }));
            }
            CommitAction::Write(path, content) => {
                let name = text_of(&path);
                if fails_on == Some(name.as_str()) {
                    disk.insert(name, "half writ".to_string());
                    commit.on_written(Err(Error::Io("disk full".into())));
                    continue;
                }
                match content {
                    Some(content) => disk.insert(name, content),
                    None => disk.remove(&name),
                };
                commit.on_written(Ok(()));
            }
            CommitAction::Restore(path, snapshot) => {
                let name = text_of(&path);
                match snapshot {
                    FileSnapshot::File(content) => disk.insert(name, content),
                    FileSnapshot::Missing => disk.remove(&name),
                };
                commit.on_restored(Ok(()));
            }
            CommitAction::Done => return Ok(()),
            CommitAction::Failed(error) => return Err(error),
        }
    }
}

fn stage(disk: &Disk, patch: &str) -> Result<PatchRun, Error> {
    let state = AgentState::new(&vec![], &vec![path("/tmp")]);
    let mut run = PatchRun::new(patch, state)?;
    while let Some(text) = run.next_path().map(String::from) {
        let normalized = normalize_lexically(&path(&text));
        let name = text_of(&normalized);
        let fact = match run.needs(normalized.clone())? {
            DiskNeed::Nothing => DiskFact::Unasked,
            DiskNeed::Existence => DiskFact::Exists(disk.contains_key(&name)),
            DiskNeed::Contents => match disk.get(&name) {
                Some(content) => DiskFact::Contents(content.clone()),
                None => return Err(Error::Io("No such file or directory".into())),
            },
        };
        run.apply(normalized, '/', fact)?;
    }
    Ok(run)
}

fn apply(disk: &mut Disk, patch: &str) -> Result<String, Error> {
    let run = stage(disk, patch)?;
    let report = run.report();
    commit(disk, &mut run.commit(), None)?;
    Ok(report)
}

fn disk(files: &[(&str, &str)]) -> Disk {
    files
        .iter()
        .map(|(name, content)| (name.to_string(), content.to_string()))
        .collect()
}

#[test]
fn apply_patch_tool_validates_write_roots_and_updates_files() {
    let mut files = disk(&[("/tmp/README.md", "Old text\n")]);
    let report = apply(
        &mut files,
        "*** Begin Patch\n*** Update File: /tmp/README.md\n@@\n-Old text\n+New text\n*** End Patch\n",
    )
    .unwrap();
    assert_eq!(files["/tmp/README.md"], "New text\n");
    assert_eq!(report, "updated /tmp/README.md");
    let before = files.clone();
    for operation in [
        "*** Add File: /tmp/../etc/x\n+new",
        "*** Update File: /tmp/../etc/x\n@@\n-a\n+b",
        "*** Delete File: /tmp/../etc/x",
    ] {
        assert_eq!(
            apply(
                &mut files,
                &format!(
                    "*** Begin Patch\n*** Delete File: /tmp/README.md\n{operation}\n*** End Patch\n"
                )
            )
            .unwrap_err(),
            Error::PathNotAllowed {
                path: "/tmp/../etc/x".into(),
                access: "write".into(),
            }
        );
    }
    assert_eq!(files, before);
}

#[test]
fn a_refused_operation_stages_nothing() {
    let state = AgentState::new(&vec![path("/")], &vec![path("/tmp")]);
    let patch = "*** Begin Patch\n*** Add File: /tmp/a\n+new\n*** Add File: /etc/b\n+new\n*** End Patch\n";
    let mut run = PatchRun::new(patch, state).unwrap();
    run.apply(path("/tmp/a"), '/', DiskFact::Exists(false)).unwrap();
    assert_eq!(run.report(), "added /tmp/a");
    for _ in 0..2 {
        assert!(matches!(
            run.needs(path("/etc/b")).unwrap_err(),
            Error::PathNotAllowed { .. }
        ));
        assert!(matches!(
            run.apply(path("/etc/b"), '/', DiskFact::Unasked).unwrap_err(),
            Error::PathNotAllowed { .. }
        ));
        assert_eq!(run.next_path(), Some("/etc/b"));
        assert_eq!(run.report(), "added /tmp/a");
    }
}

#[test]
fn apply_patch_tool_handles_multiple_disjoint_hunks() {
    let mut files = disk(&[("/tmp/main.rs", "foo\nunchanged\nbar\n")]);
    apply(
        &mut files,
        "*** Begin Patch\n*** Update File: /tmp/main.rs\n@@\n-foo\n+FOO\n@@\n-bar\n+BAR\n*** End Patch\n",
    )
    .unwrap();
    assert_eq!(files["/tmp/main.rs"], "FOO\nunchanged\nBAR\n");
}

#[test]
fn apply_patch_tool_rolls_back_failed_multi_operation_patch() {
    let mut files = disk(&[]);
    let error = apply(
        &mut files,
        "*** Begin Patch\n*** Add File: /tmp/created.txt\n+new\n*** Delete File: /tmp/missing.txt\n*** End Patch\n",
    )
    .unwrap_err();
    assert!(error.to_string().contains("cannot delete missing file"));
    assert!(files.is_empty());
}

#[test]
fn apply_patch_tool_can_remove_all_content_without_leaving_newline() {
    let mut files = disk(&[("/tmp/empty-me.txt", "delete me\n")]);
    apply(
        &mut files,
        "*** Begin Patch\n*** Update File: /tmp/empty-me.txt\n@@\n-delete me\n*** End Patch\n",
    )
    .unwrap();
    assert_eq!(files["/tmp/empty-me.txt"], "");
}

#[test]
fn later_operations_see_earlier_ones() {
    let mut files = disk(&[("/tmp/b", "old\n")]);
    let report = apply(
        &mut files,
        "*** Begin Patch\n*** Add File: /tmp/a\n+one\n+two\n\n*** Update File: /tmp/a\n@@ here\n one\n-two\n+three\n*** Delete File: /tmp/b\n*** Add File: /tmp/b\n+new\n*** End Patch\n",
    );
    // A blank line inside an added file has no `+`.
    assert_eq!(
        report.unwrap_err(),
        Error::Tool("add file lines must start with `+`".into())
    );
    let report = apply(
        &mut files,
        "*** Begin Patch\n*** Add File: /tmp/a\n+one\n+two\n*** Update File: /tmp/a\n@@ here\n one\n-two\n+three\n*** Delete File: /tmp/b\n\n*** Add File: /tmp/b\n+new\n*** End Patch\n",
    )
    .unwrap();
    assert_eq!(
        report,
        "added /tmp/a\nupdated /tmp/a\ndeleted /tmp/b\nadded /tmp/b"
    );
    assert_eq!(files, disk(&[("/tmp/a", "one\nthree\n"), ("/tmp/b", "new\n")]));
}

#[test]
fn staging_reports_what_is_wrong_with_a_file() {
    let files = disk(&[("/tmp/a", "x\n")]);
    for (patch, message) in [
        (
            "*** Begin Patch\n*** Add File: /tmp/a\n+y\n*** End Patch",
            "cannot add file that already exists: /tmp/a",
        ),
        (
            "*** Begin Patch\n*** Delete File: /tmp/a\n*** Update File: /tmp/a\n@@\n-x\n*** End Patch",
            "cannot update deleted file: /tmp/a",
        ),
        (
            "*** Begin Patch\n*** Delete File: /tmp/a\n*** Delete File: /tmp/a\n*** End Patch",
            "cannot delete missing file: /tmp/a",
        ),
        (
            "*** Begin Patch\n*** Update File: /tmp/a\n@@\n-y\n*** End Patch",
            "update hunk did not match the target file",
        ),
        (
            "*** Begin Patch\n*** Update File: /tmp/a\n@@\n x\n y\n*** End Patch",
            "update hunk did not match the target file",
        ),
        (
            "*** Begin Patch\n\n*** End Patch",
            "patch contained no operations",
        ),
    ] {
        assert_eq!(
            stage(&files, patch).err().unwrap(),
            Error::Tool(message.into()),
            "{patch}"
        );
    }
}

#[test]
fn malformed_patches_are_refused() {
    for (patch, message) in [
        (
            "",
            "patch must start with `*** Begin Patch` and end with `*** End Patch`",
        ),
        (
            "*** Begin Patch",
            "patch must start with `*** Begin Patch` and end with `*** End Patch`",
        ),
        (
            "*** Begin Patch\nhello\n*** End Patch",
            "unsupported patch operation `hello`",
        ),
        (
            "*** Begin Patch\n*** Move File: a\n*** End Patch",
            "unsupported patch operation `*** Move File: a`",
        ),
        (
            "*** Begin Patch\n*** Add File: a\nx\n*** End Patch",
            "add file lines must start with `+`",
        ),
        (
            "*** Begin Patch\n*** Update File: a\n@@\n\n*** End Patch",
            "empty patch hunk line",
        ),
        (
            "*** Begin Patch\n*** Update File: a\n@@\n?x\n*** End Patch",
            "unsupported update hunk line prefix `?`",
        ),
        (
            "*** Begin Patch\n*** Update File: a\n@@\néx\n*** End Patch",
            "unsupported update hunk line prefix `é`",
        ),
        (
            "*** Begin Patch\n*** Update File: a\n@@\n*** End Patch",
            "update file contained no hunks",
        ),
    ] {
        assert_eq!(
            parse_patch(patch).unwrap_err(),
            Error::Tool(message.into()),
            "{patch}"
        );
    }
    assert_eq!(parse_patch("*** Begin Patch\n*** End Patch\n").unwrap(), vec![]);
}

#[test]
fn patches_are_read_operation_by_operation() {
    let operations = parse_patch(
        "*** Begin Patch\r\n*** Add File: new.txt\n+a\n+\n*** Update File: old.txt\n-x\n@@\n y\n+z\n@@ tail\n*** Delete File: gone.txt\n*** End Patch\n",
    )
    .unwrap();
    assert_eq!(
        operations,
        vec![
            PatchOperation::Add {
                path: "new.txt".into(),
                lines: vec!["a".into(), "".into()],
            },
            PatchOperation::Update {
                path: "old.txt".into(),
                hunks: vec![
                    Hunk {
                        lines: vec![HunkLine::Remove("x".into())]
                    },
                    Hunk {
                        lines: vec![HunkLine::Context("y".into()), HunkLine::Add("z".into())]
                    },
                ],
            },
            PatchOperation::Delete {
                path: "gone.txt".into(),
            },
        ]
    );
    assert_eq!(operations[1].path(), "old.txt");
}

#[test]
fn hunks_are_applied_in_order() {
    let hunk = |lines: Vec<HunkLine>| Hunk { lines };
    let add = |text: &str| HunkLine::Add(text.into());
    let remove = |text: &str| HunkLine::Remove(text.into());
    let keep = |text: &str| HunkLine::Context(text.into());
    // A hunk without lines to look for goes where the one before it ended.
    assert_eq!(
        apply_hunks("a\nb", &vec![hunk(vec![keep("a")]), hunk(vec![add("x")])]).unwrap(),
        "a\nx\nb"
    );
    // The first place counts, but never one before the last hunk.
    assert_eq!(
        apply_hunks(
            "a\na\na\n",
            &vec![hunk(vec![remove("a")]), hunk(vec![remove("a"), add("b")])]
        )
        .unwrap(),
        "b\na\n"
    );
    assert!(apply_hunks("a\nb\n", &vec![hunk(vec![keep("b")]), hunk(vec![keep("a")])]).is_err());
    // Context alone changes nothing.
    assert_eq!(
        apply_hunks("a\nb\nc\n", &vec![hunk(vec![keep("b")]), hunk(vec![keep("c")])]).unwrap(),
        "a\nb\nc\n"
    );
    assert_eq!(
        lines_to_text(&vec!["a".to_string(), "b".to_string()]),
        "a\nb\n"
    );
    assert_eq!(lines_to_text(&vec![]), "");
}

#[test]
fn a_failed_commit_changes_no_file() {
    let before = disk(&[("/tmp/a", "a\n"), ("/tmp/c", "c\n")]);
    let patch = "*** Begin Patch\n*** Update File: /tmp/c\n@@\n-c\n+C\n*** Add File: /tmp/b\n+b\n*** Delete File: /tmp/a\n*** End Patch";
    for fails_on in ["/tmp/a", "/tmp/b", "/tmp/c"] {
        let mut files = before.clone();
        let run = stage(&files, patch).unwrap();
        let error = commit(&mut files, &mut run.commit(), Some(fails_on)).unwrap_err();
        assert_eq!(error, Error::Io("disk full".into()));
        assert_eq!(files, before);
    }
    let mut files = before.clone();
    apply(&mut files, patch).unwrap();
    assert_eq!(files, disk(&[("/tmp/b", "b\n"), ("/tmp/c", "C\n")]));
}

#[test]
fn files_are_written_in_the_order_of_their_paths() {
    let files = disk(&[]);
    let run = stage(
        &files,
        "*** Begin Patch\n*** Add File: /tmp/b\n+b\n*** Add File: /tmp/a/z\n+z\n*** Add File: /tmp/a\n+a\n*** End Patch",
    )
    .unwrap();
    let mut commit = run.commit();
    let mut order = Vec::new();
    loop {
        match commit.action() {
            CommitAction::Capture(_) => commit.on_captured(Ok(FileSnapshot::Missing)),
            CommitAction::Write(path, _) => {
                order.push(text_of(&path));
                commit.on_written(Ok(()));
            }
            CommitAction::Done => break,
            other => panic!("unexpected action {other:?}"),
        }
    }
    assert_eq!(order, vec!["/tmp/a", "/tmp/a/z", "/tmp/b"]);
}

#[test]
fn failures_to_capture_and_to_restore_are_reported() {
    let patch = "*** Begin Patch\n*** Add File: /tmp/a\n+a\n*** Add File: /tmp/b\n+b\n*** End Patch";
    let mut commit = stage(&disk(&[]), patch).unwrap().commit();
    assert!(matches!(commit.action(), CommitAction::Capture(_)));
    commit.on_captured(Err(Error::Io("unreadable".into())));
    assert_eq!(
        commit.action(),
        CommitAction::Failed(Error::Io("unreadable".into()))
    );

    let mut commit = stage(&disk(&[]), patch).unwrap().commit();
    commit.on_captured(Ok(FileSnapshot::Missing));
    commit.on_captured(Ok(FileSnapshot::Missing));
    commit.on_written(Ok(()));
    commit.on_written(Err(Error::Io("disk full".into())));
    assert!(matches!(
        commit.action(),
        CommitAction::Restore(_, FileSnapshot::Missing)
    ));
    commit.on_restored(Err("gone".into()));
    assert_eq!(
        commit.action(),
        CommitAction::Failed(Error::Tool(
            "patch failed: io error: disk full; rollback failed: gone".into()
        ))
    );
}
