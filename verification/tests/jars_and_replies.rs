use std::io::{Cursor, Write};

use minipot::commands::sync::plugin_name_from_jar;
use minipot::hash::{file_step, FileOrigin, FileStep};
use minipot::lines::text_lines_exec;
use minipot::sources::github::{api_reply, etag_from_header, request_etag, ApiReply, CachedData};

fn s(x: &str) -> String {
    x.to_string()
}

fn jar_with(entries: &[(&str, &[u8])]) -> Vec<u8> {
    let mut w = zip::ZipWriter::new(Cursor::new(Vec::new()));
    let options = zip::write::SimpleFileOptions::default()
        .compression_method(zip::CompressionMethod::Stored);
    for (name, contents) in entries {
        w.start_file(*name, options).unwrap();
        w.write_all(contents).unwrap();
    }
    w.finish().unwrap().into_inner()
}

#[test]
fn lines_as_bufread_gives_them() {
    assert_eq!(text_lines_exec(b"a\r\nb\n\nc"), vec![s("a"), s("b"), s(""), s("c")]);
    assert_eq!(text_lines_exec(b"one\ntwo\n"), vec![s("one"), s("two")]);
    assert_eq!(text_lines_exec(b"x\r"), vec![s("x\r")]);
    assert_eq!(text_lines_exec(b""), Vec::<String>::new());
    assert_eq!(text_lines_exec(b"ok\n\xff\xfe\nlast"), vec![s("ok"), s("last")]);
}

#[test]
fn plugin_name_is_read_from_the_jar() {
    let jar = jar_with(&[
        ("META-INF/MANIFEST.MF", b"Manifest-Version: 1.0\n"),
        ("plugin.yml", b"main: a.b.C\r\nName: \"MyPlugin\"\r\nversion: 1\r\n"),
    ]);
    assert_eq!(plugin_name_from_jar(&jar), Some(s("MyPlugin")));
    let no_yml = jar_with(&[("other.yml", b"name: X\n")]);
    assert_eq!(plugin_name_from_jar(&no_yml), None);
    let unnamed = jar_with(&[("plugin.yml", b"main: a.b.C\n")]);
    assert_eq!(plugin_name_from_jar(&unnamed), None);
    assert_eq!(plugin_name_from_jar(b"not a zip archive"), None);
}

#[test]
fn cached_etag_is_sent_when_valid() {
    let none: Option<CachedData<u32>> = None;
    assert_eq!(request_etag(&none), None);
    let ok = Some(CachedData { data: 7u32, etag: s("W/\"abc\"") });
    assert_eq!(request_etag(&ok), Some(s("W/\"abc\"")));
    let bad = Some(CachedData { data: 7u32, etag: s("a\nb") });
    assert_eq!(request_etag(&bad), None);
}

#[test]
fn reply_etag_text() {
    assert_eq!(etag_from_header(b"\"v1\""), "\"v1\"");
    assert_eq!(etag_from_header(b"caf\xc3\xa9"), "");
}

#[test]
fn not_modified_answers_from_the_cache() {
    let cached = Some(CachedData { data: 42u32, etag: s("e1") });
    assert!(matches!(api_reply(304, cached, &None), ApiReply::UseCached { data: 42 }));
    assert!(matches!(api_reply::<u32>(304, None, &None), ApiReply::NotModifiedWithoutCache));
    match api_reply::<u32>(200, None, &Some(b"e2".to_vec())) {
        ApiReply::UseBody { store_etag } => assert_eq!(store_etag, Some(s("e2"))),
        _ => panic!("a fresh reply is read"),
    }
    assert!(matches!(api_reply::<u32>(200, None, &None), ApiReply::UseBody { store_etag: None }));
}

#[test]
fn file_origins_in_order() {
    let exp = Some(s("aa"));
    assert!(matches!(file_step(FileOrigin::Existing, &exp, Some(s("aa"))), FileStep::Take { .. }));
    assert!(matches!(
        file_step(FileOrigin::Existing, &exp, Some(s("bb"))),
        FileStep::TryNext { origin: FileOrigin::Cached }
    ));
    assert!(matches!(file_step(FileOrigin::Existing, &exp, None), FileStep::TryNext { origin: FileOrigin::Cached }));
    assert!(matches!(file_step(FileOrigin::Cached, &exp, None), FileStep::TryNext { origin: FileOrigin::Downloaded }));
    assert!(matches!(
        file_step(FileOrigin::Cached, &exp, Some(s("bb"))),
        FileStep::TryNext { origin: FileOrigin::Downloaded }
    ));
    match file_step(FileOrigin::Downloaded, &exp, Some(s("bb"))) {
        FileStep::Reject { expected, actual } => assert_eq!((expected, actual), (s("aa"), s("bb"))),
        _ => panic!("a wrong download is refused"),
    }
    match file_step(FileOrigin::Downloaded, &None, Some(s("cc"))) {
        FileStep::Take { digest } => assert_eq!(digest, "cc"),
        _ => panic!("without an expected digest the download is taken"),
    }
}
