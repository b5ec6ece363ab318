use smolgent::json::JsonText;
use smolgent::path::{FilePath, PathComponent};
use smolgent::tools::builtin::{media_read_tool, BuiltinSchemas, BuiltinTool};
use smolgent::tools::file::page::PageStep;
use smolgent::tools::media::{
    check_media, extension_of, media_content, media_format, FormatSet, MediaRead, MediaReader,
    Modality,
};
use smolgent::tools::read::ReadStep;
use smolgent::{
    builtin_registry_for_provider, read_tool, read_tool_with_capabilities, AgentState,
    ChatProvider, ContentPart, Error, MessageContent, ModelCapabilities, ProviderConfig, ReadArgs,
    READ_MAX_MEDIA_BYTES,
};

fn capabilities(modalities: &[&str]) -> ModelCapabilities {
    ModelCapabilities {
        model: "test-model".into(),
        input_modalities: modalities.iter().map(|s| (*s).into()).collect(),
    }
}

fn reader(formats: FormatSet, modalities: &[&str]) -> MediaReader {
    MediaReader {
        formats,
        capabilities: capabilities(modalities),
    }
}

fn args(path: &str) -> ReadArgs {
    ReadArgs {
        path: path.to_string(),
        character_offset: None,
        line_offset: None,
        character_count: None,
        line_count: None,
    }
}

fn schemas() -> BuiltinSchemas {
    BuiltinSchemas {
        read: JsonText::empty_object(),
        create_file: JsonText::empty_object(),
        delete_file: JsonText::empty_object(),
        apply_patch: JsonText::empty_object(),
        ripgrep: JsonText::empty_object(),
    }
}

fn path(text: &str) -> FilePath {
    FilePath {
        parts: std::iter::once(PathComponent::Root)
            .chain(
                text.split('/')
                    .filter(|name| !name.is_empty())
                    .map(|name| PathComponent::Normal(name.to_string())),
            )
            .collect(),
    }
}

/// A root that holds every file.
fn everywhere() -> AgentState {
    AgentState::new(&vec![path("/")], &Vec::new())
}

/// What is on disk at a path.
struct OnDisk<'a> {
    is_file: bool,
    size: u64,
    bytes: &'a [u8],
}

fn file(bytes: &[u8]) -> OnDisk<'_> {
    OnDisk {
        is_file: true,
        size: bytes.len() as u64,
        bytes,
    }
}

/// A whole call of a `read` tool, on a file with these contents.
fn call(tool: &BuiltinTool, args: ReadArgs, found: OnDisk) -> Result<MessageContent, Error> {
    let given = args.path.clone();
    let name = given.rsplit('/').next().filter(|name| !name.is_empty());
    match tool.begin_read(args, name, path(&given), '/')? {
        ReadStep::Media(opened) => {
            assert_eq!(opened.path(), &path(&given));
            opened.on_opened(found.is_file, found.size)?;
            opened.on_bytes(&found.bytes.to_vec())
        }
        ReadStep::Text(text) => {
            assert_eq!(text.path(), &path(&given));
            text.on_found(!found.is_file)?;
            let mut reader = text.on_opened()?;
            let content = String::from_utf8(found.bytes.to_vec()).unwrap();
            let mut lines = content.split_inclusive('\n');
            loop {
                match reader.on_line(lines.next().map(String::from)) {
                    PageStep::ReadLine => {}
                    PageStep::Probe => {
                        return Ok(reader.on_probe(lines.next().is_some()).into());
                    }
                    PageStep::Done(page) => return Ok(page.into()),
                }
            }
        }
    }
}

fn read(tool: &BuiltinTool, name: &str, bytes: &[u8]) -> Result<MessageContent, Error> {
    call(tool, args(&format!("/dir/{name}")), file(bytes))
}

#[test]
fn media_reader_preserves_parts_for_each_supported_modality() {
    let tool = read_tool_with_capabilities(
        everywhere(),
        JsonText::empty_object(),
        capabilities(&["image", "video", "audio", "file"]),
    );
    let reader = tool.handler();
    for (name, expected) in [
        ("image.PNG", ContentPart::image_bytes("image/png", b"hello")),
        ("clip.mp4", ContentPart::video_bytes("video/mp4", b"hello")),
        ("sound.wav", ContentPart::audio_bytes("wav", b"hello")),
        (
            "document.pdf",
            ContentPart::pdf_bytes("document.pdf", b"hello"),
        ),
    ] {
        let MessageContent::Parts(parts) = read(reader, name, b"hello").unwrap() else {
            panic!("expected content parts");
        };
        assert!(matches!(&parts[0], ContentPart::Text { text } if text.contains(name)));
        assert_eq!(parts[1], expected);
        assert_eq!(parts.len(), 2);
    }
    assert_eq!(
        read(reader, "image.png", b"hello").unwrap().text(),
        "Read /dir/image.png (image/png, 5 bytes)."
    );
    let mut paged = args("/dir/notes.txt");
    paged.line_offset = Some(1);
    paged.line_count = Some(1);
    let output = call(reader, paged, file(b"first\nsecond\nthird\n")).unwrap();
    assert!(matches!(&output, MessageContent::Text(_)));
    assert!(output.text().starts_with("second\n"));
    assert!(output.text().contains("Read truncated"));
}

#[test]
fn media_reader_enforces_roots_capabilities_pagination_and_size() {
    let state = AgentState::new(&vec![path("/allowed")], &Vec::new());
    let tool =
        read_tool_with_capabilities(state, JsonText::empty_object(), capabilities(&["image"]));
    let reader = tool.handler();
    let image = "/allowed/image.png";
    assert!(call(reader, args(image), file(b"hello")).is_ok());
    assert_eq!(
        call(reader, args("/denied/image.png"), file(b"hello")).unwrap_err(),
        Error::PathNotAllowed {
            path: "/denied/image.png".into(),
            access: "read".into(),
        }
    );
    // The roots decide before what the model takes, and before text offsets.
    let mut denied = args("/denied/clip.mp4");
    denied.line_offset = Some(0);
    assert!(matches!(
        call(reader, denied, file(b"hello")).unwrap_err(),
        Error::PathNotAllowed { .. }
    ));
    assert!(call(reader, args("/allowed/clip.mp4"), file(b"hello"))
        .unwrap_err()
        .to_string()
        .contains("does not advertise video"));
    let mut paged = args(image);
    paged.line_offset = Some(0);
    assert!(call(reader, paged, file(b"hello"))
        .unwrap_err()
        .to_string()
        .contains("text offsets/counts"));
    let mut large = file(b"hello");
    large.size = READ_MAX_MEDIA_BYTES as u64 + 1;
    assert!(call(reader, args(image), large)
        .unwrap_err()
        .to_string()
        .contains("20 MiB"));
    let mut largest = file(b"hello");
    largest.size = READ_MAX_MEDIA_BYTES as u64;
    assert!(call(reader, args(image), largest).is_ok());
    let mut directory = file(b"");
    directory.is_file = false;
    assert_eq!(
        call(reader, args(image), directory).unwrap_err(),
        Error::Tool("read requires a regular file".into())
    );
    // A file that grows while it is read is refused as well.
    let grown = vec![0; READ_MAX_MEDIA_BYTES + 1];
    let mut growing = file(&grown);
    growing.size = 5;
    assert!(call(reader, args(image), growing)
        .unwrap_err()
        .to_string()
        .contains("20 MiB"));
    assert!(check_media(true, READ_MAX_MEDIA_BYTES as u64).is_ok());
    assert!(media_content(Modality::Image, "image/png", "x", "x", &grown).is_err());
}

#[test]
fn discovery_uses_input_modalities_and_only_augments_supported_formats() {
    let provider = ChatProvider::new(ProviderConfig::openrouter("z-ai/glm-5.3-flash").unwrap());
    let registry = builtin_registry_for_provider(
        AgentState::default(),
        &schemas(),
        &provider,
        Some(capabilities(&["text", "image", "video"])),
    );
    let description = &registry
        .get("read")
        .unwrap()
        .definition()
        .function
        .description;
    assert!(description.contains("images:"));
    assert!(description.contains("videos:"));
    assert!(!description.contains("audio:"));
    assert!(!description.contains("PDF documents:"));
    assert!(registry.get("read").unwrap().handler().media.is_some());
    assert_eq!(registry.definitions().len(), 5);
}

#[test]
fn unknown_or_missing_metadata_and_other_providers_keep_text_reader() {
    let provider = ChatProvider::new(ProviderConfig::openrouter("z-ai/glm-5.3-flash").unwrap());
    let plain = read_tool(AgentState::default(), JsonText::empty_object());
    for found in [None, Some(capabilities(&["text"]))] {
        let registry =
            builtin_registry_for_provider(AgentState::default(), &schemas(), &provider, found);
        let tool = registry.get("read").unwrap();
        assert_eq!(tool.definition(), plain.definition());
        assert_eq!(tool.handler().media, None);
    }
    let tool = read_tool_with_capabilities(
        AgentState::default(),
        JsonText::empty_object(),
        capabilities(&["text"]),
    );
    assert_eq!(tool.definition(), plain.definition());
}

#[test]
fn discovered_reader_uses_llama_cpp_decoders_and_retains_text_pagination() {
    let provider =
        ChatProvider::new(ProviderConfig::llama_cpp("http://localhost:8080", "local").unwrap());
    let registry = builtin_registry_for_provider(
        everywhere(),
        &schemas(),
        &provider,
        Some(capabilities(&["text", "image", "audio"])),
    );
    let tool = registry.get("read").unwrap();
    let description = &tool.definition().function.description;
    assert!(description.contains(".bmp"));
    assert!(description.contains(".flac"));
    for absent in [".webp", ".aac", "videos:", "PDF documents:"] {
        assert!(!description.contains(absent));
    }
    let reader = tool.handler();
    for (name, part) in [
        ("image.bmp", ContentPart::image_bytes("image/bmp", b"hello")),
        ("image.PNG", ContentPart::image_bytes("image/png", b"hello")),
        ("audio.flac", ContentPart::audio_bytes("flac", b"hello")),
    ] {
        let MessageContent::Parts(parts) = read(reader, name, b"hello").unwrap() else {
            panic!("expected content parts");
        };
        assert_eq!(parts[1], part);
    }
    for (name, expected) in [
        ("image.webp", "decoders do not support"),
        ("audio.aac", "decoders do not support"),
        ("video.mp4", "does not advertise video"),
        ("file.pdf", "does not advertise file"),
    ] {
        let error = read(reader, name, b"hello").unwrap_err();
        assert!(error.to_string().contains(expected), "{error:?}");
    }
    assert_eq!(
        read(reader, "notes.txt", b"hello").unwrap(),
        MessageContent::from("hello")
    );
}

#[test]
fn the_lower_level_reader_takes_the_common_formats() {
    let tool = read_tool_with_capabilities(
        AgentState::default(),
        JsonText::empty_object(),
        capabilities(&["image"]),
    );
    assert!(tool.definition().function.description.contains(".webp"));
    let media = tool.handler().media.as_ref().unwrap();
    assert!(matches!(
        media.plan(Some("a.webp"), &args("a.webp")).unwrap(),
        MediaRead::Media(Modality::Image, "image/webp")
    ));
    assert_eq!(
        media.plan(Some("a.bmp"), &args("a.bmp")).unwrap(),
        MediaRead::Text
    );
    let tool = media_read_tool(
        AgentState::default(),
        JsonText::empty_object(),
        reader(FormatSet::OpenRouter, &["file"]),
    );
    assert!(tool
        .definition()
        .function
        .description
        .ends_with("Upstream format limits may be narrower."));
}

#[test]
fn extensions_are_those_of_std() {
    for name in [
        "a.png", "a.tar.gz", ".png", "a.", "a", "", "..", "...", "..png", ".a.b", "日.本",
    ] {
        assert_eq!(
            extension_of(name).as_deref(),
            std::path::Path::new(name)
                .extension()
                .map(|extension| extension.to_str().unwrap()),
            "{name}"
        );
    }
}

#[test]
fn formats_are_known_by_extension() {
    for (name, modality, format) in [
        ("a.png", Modality::Image, "image/png"),
        ("a.jpg", Modality::Image, "image/jpeg"),
        ("a.JPEG", Modality::Image, "image/jpeg"),
        ("a.webp", Modality::Image, "image/webp"),
        ("a.gif", Modality::Image, "image/gif"),
        ("a.mp4", Modality::Video, "video/mp4"),
        ("a.mpeg", Modality::Video, "video/mpeg"),
        ("a.mpg", Modality::Video, "video/mpeg"),
        ("a.mov", Modality::Video, "video/mov"),
        ("a.webm", Modality::Video, "video/webm"),
        ("a.wav", Modality::Audio, "wav"),
        ("a.mp3", Modality::Audio, "mp3"),
        ("a.aiff", Modality::Audio, "aiff"),
        ("a.aif", Modality::Audio, "aiff"),
        ("a.aac", Modality::Audio, "aac"),
        ("a.ogg", Modality::Audio, "ogg"),
        ("a.flac", Modality::Audio, "flac"),
        ("a.m4a", Modality::Audio, "m4a"),
        ("a.pdf", Modality::File, "application/pdf"),
    ] {
        assert_eq!(
            media_format(FormatSet::OpenRouter, Some(name)),
            Some((modality, format))
        );
    }
    for name in [Some("a.txt"), Some("png"), None, Some("a.bmp"), Some("a.tga")] {
        assert_eq!(media_format(FormatSet::OpenRouter, name), None);
    }
    assert_eq!(
        media_format(FormatSet::LlamaCpp, Some("a.tga")),
        Some((Modality::Image, "image/tga"))
    );
}
