use move_bytecode_converter::error::ConvertError;
use move_bytecode_converter::format::BytecodeFormat;
use move_bytecode_converter::source::InputSource;

fn source(path: &str) -> InputSource {
    match InputSource::new(path.to_string()) {
        Ok(source) => source,
        Err(e) => panic!("{} was rejected: {:?}", path, e),
    }
}

#[test]
fn new_keeps_the_path_and_resolves_the_format() {
    let binary = source("dir/module.mv");
    assert_eq!(binary.path(), "dir/module.mv");
    assert_eq!(binary.format(), BytecodeFormat::Mv);
    let text = source("module.json");
    assert_eq!(text.path(), "module.json");
    assert_eq!(text.format(), BytecodeFormat::Json);
}

#[test]
fn new_rejects_other_extensions() {
    for path in ["module.txt", "module", "", ".mv", "dir.mv/module", "module.mv/..", "/"] {
        match InputSource::new(path.to_string()) {
            Ok(_) => panic!("{} was accepted", path),
            Err(e) => assert_eq!(e, ConvertError::UnrecognizedExtension),
        }
    }
}

#[test]
fn separators_at_the_end_do_not_count() {
    let closed = source("module.mv/");
    assert_eq!(closed.path(), "module.mv/");
    assert_eq!(closed.format(), BytecodeFormat::Mv);
    assert_eq!(closed.output_file_name(), "module.json");
    assert_eq!(closed.output_path("/out"), "/out/module.json");
    let dotted = source("a/b.json/.");
    assert_eq!(dotted.path(), "a/b.json/.");
    assert_eq!(dotted.format(), BytecodeFormat::Json);
    assert_eq!(dotted.output_path("D"), "D/b.mv");
}

#[test]
fn output_format_is_the_opposite() {
    assert_eq!(source("a.mv").output_format(), BytecodeFormat::Json);
    assert_eq!(source("a.json").output_format(), BytecodeFormat::Mv);
}

#[test]
fn output_name_is_stem_and_opposite_extension() {
    assert_eq!(source("foo.mv").output_file_name(), "foo.json");
    assert_eq!(source("foo.json").output_file_name(), "foo.mv");
    assert_eq!(source("a/b/foo.mv").output_file_name(), "foo.json");
    assert_eq!(source("foo.bar.mv").output_file_name(), "foo.bar.json");
}

#[test]
fn output_path_lies_in_the_output_directory() {
    assert_eq!(source("foo.mv").output_path("D"), "D/foo.json");
    assert_eq!(source("foo.json").output_path("D"), "D/foo.mv");
    assert_eq!(source("in/module.mv").output_path("/out"), "/out/module.json");
    assert_eq!(source("in/module.mv").output_path("/out/"), "/out/module.json");
    assert_eq!(source("in/module.mv").output_path(""), "module.json");
}

#[test]
fn output_path_resolves_to_the_opposite_format() {
    for path in ["foo.mv", "foo.json", "x/y.z/m.n.mv", "é.json"] {
        for dir in ["", "/", "out", "out/", "a.mv/b.json"] {
            let input = source(path);
            let output = input.output_path(dir);
            assert_eq!(BytecodeFormat::from_path(&output), Ok(input.format().opposite()));
        }
    }
}

#[test]
fn converting_back_gives_the_first_name() {
    let first = source("in/module.mv");
    let second = source(&first.output_path("/out"));
    assert_eq!(second.path(), "/out/module.json");
    assert_eq!(second.format(), BytecodeFormat::Json);
    assert_eq!(second.output_file_name(), "module.mv");
    assert_eq!(second.output_path("/back"), "/back/module.mv");
}
