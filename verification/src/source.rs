//! An input file of a conversion: its path and the encoding that the
//! path's extension names, and where the converted file goes.

use crate::error::ConvertError;
use crate::format::{lemma_extension_names_format, lemma_opposite_swaps, BytecodeFormat};
use crate::path_text::{
    extension, file_name, file_stem, file_stem_of, join, join_path, lemma_dotted_name_names_file,
    lemma_extension_dot_of_concat, lemma_file_name_has_no_separator, lemma_file_name_of_concat,
    lemma_file_name_of_join, lemma_stem_of_path_with_extension,
};
use vstd::pervasive::unreached;
use vstd::prelude::*;

verus! {

/// An input file: the text of its path, and its encoding.
#[derive(Debug)]
pub struct InputSource {
    path: String,
    format: BytecodeFormat,
}

/// What an `InputSource` stands for.
pub ghost struct InputSourceView {
    /// The characters of the path.
    pub path: Seq<char>,
    /// The encoding of the file.
    pub format: BytecodeFormat,
}

impl InputSourceView {
    /// The encoding is the one that the extension of the path names.
    pub open spec fn wf(self) -> bool {
        BytecodeFormat::resolve(self.path) == Ok::<BytecodeFormat, ConvertError>(self.format)
    }

    /// The encoding of the converted file: the opposite of the input's.
    pub open spec fn output_format(self) -> BytecodeFormat {
        self.format.opposite()
    }

    /// The name of the converted file: the stem of the input path, a `.`
    /// and the canonical extension of the output encoding.
    pub open spec fn output_file_name(self) -> Seq<char>
        recommends
            self.wf(),
    {
        file_stem(self.path)->Some_0 + seq!['.'] + self.output_format().extension_text()
    }

    /// The path of the converted file in the directory `output_dir`.
    pub open spec fn output_path(self, output_dir: Seq<char>) -> Seq<char>
        recommends
            self.wf(),
    {
        join(output_dir, self.output_file_name())
    }
}

impl View for InputSource {
    type V = InputSourceView;

    closed spec fn view(&self) -> InputSourceView {
        InputSourceView { path: self.path@, format: self.format }
    }
}

impl InputSource {
    #[verifier::type_invariant]
    closed spec fn well_formed(&self) -> bool {
        self@.wf()
    }

    /// Makes the input file at `path`. The encoding is read off the
    /// extension of `path`; a path whose extension names no encoding is
    /// rejected with `UnrecognizedExtension`.
    pub fn new(path: String) -> (source: Result<InputSource, ConvertError>)
        ensures
            match source {
                Ok(s) => s@.path == path@ && BytecodeFormat::resolve(path@) == Ok::<
                    BytecodeFormat,
                    ConvertError,
                >(s@.format),
                Err(e) => BytecodeFormat::resolve(path@) == Err::<BytecodeFormat, ConvertError>(e),
            },
    {
        match BytecodeFormat::from_path(path.as_str()) {
            Ok(format) => Ok(InputSource { path, format }),
            Err(e) => Err(e),
        }
    }

    /// Returns the path of the input file.
    pub fn path(&self) -> (path: &str)
        ensures
            path@ == self@.path,
    {
        self.path.as_str()
    }

    /// Returns the encoding of the input file, which is always the one
    /// that the extension of its path names.
    pub fn format(&self) -> (format: BytecodeFormat)
        ensures
            format == self@.format,
            self@.wf(),
    {
        proof {
            use_type_invariant(self);
        }
        self.format
    }

    /// Returns the encoding of the converted file.
    pub fn output_format(&self) -> (format: BytecodeFormat)
        ensures
            format == self@.output_format(),
    {
        self.format.opposite()
    }

    /// Returns the name of the converted file.
    pub fn output_file_name(&self) -> (name: String)
        ensures
            name@ == self@.output_file_name(),
    {
        let stem = match file_stem_of(self.path.as_str()) {
            Some(stem) => stem,
            None => {
                proof {
                    use_type_invariant(self);
                    lemma_stem_of_path_with_extension(self@.path);
                }
                unreached()
            },
        };
        let mut name = String::from_str(stem);
        proof {
            reveal_strlit(".");
        }
        name.append(".");
        assert("."@ =~= seq!['.']);
        name.append(self.format.opposite().extension());
        name
    }

    /// Returns the path of the converted file in the directory `output_dir`.
    pub fn output_path(&self, output_dir: &str) -> (path: String)
        ensures
            path@ == self@.output_path(output_dir@),
    {
        let name = self.output_file_name();
        join_path(output_dir, name.as_str())
    }
}

/// The converted file is always of the opposite encoding: its path
/// resolves to the opposite of the input's encoding, whatever the output
/// directory is, and it keeps the stem of the input.
pub proof fn lemma_output_has_opposite_format(source: InputSourceView, output_dir: Seq<char>)
    requires
        source.wf(),
    ensures
        BytecodeFormat::resolve(source.output_path(output_dir)) == Ok::<
            BytecodeFormat,
            ConvertError,
        >(source.format.opposite()),
        extension(source.output_path(output_dir)) == Some(
            source.format.opposite().extension_text(),
        ),
        file_stem(source.output_path(output_dir)) == file_stem(source.path),
        file_name(source.output_path(output_dir)) == Some(source.output_file_name()),
{
    let stem = file_stem(source.path)->Some_0;
    let ext = source.output_format().extension_text();
    let name = source.output_file_name();
    lemma_stem_of_path_with_extension(source.path);
    lemma_file_name_has_no_separator(source.path);
    lemma_dotted_name_names_file(stem, ext);
    lemma_file_name_of_join(output_dir, name);
    lemma_extension_dot_of_concat(stem, ext);
    lemma_extension_names_format(source.output_format(), ext);
}

/// The output path depends on the base name of the input alone: an input
/// whose file name is `stem`, a `.` and the extension of its encoding is
/// converted to the file in the output directory whose name is `stem`, a
/// `.` and the extension of the opposite encoding. So `foo.mv` goes to
/// `foo.json` in the output directory, and `foo.json` to `foo.mv`.
pub proof fn lemma_output_path_by_stem(
    parent: Seq<char>,
    stem: Seq<char>,
    format: BytecodeFormat,
    output_dir: Seq<char>,
)
    requires
        parent.len() == 0 || parent.last() == '/',
        stem.len() > 0,
        !stem.contains('/'),
    ensures
        ({
            let path = parent + (stem + seq!['.'] + format.extension_text());
            let source = InputSourceView { path, format };
            &&& source.wf()
            &&& source.output_file_name() == stem + seq!['.'] + format.opposite().extension_text()
            &&& source.output_path(output_dir) == join(
                output_dir,
                stem + seq!['.'] + format.opposite().extension_text(),
            )
        }),
{
    let ext = format.extension_text();
    let name = stem + seq!['.'] + ext;
    lemma_dotted_name_names_file(stem, ext);
    lemma_file_name_of_concat(parent, name);
    lemma_extension_dot_of_concat(stem, ext);
    lemma_extension_names_format(format, ext);
}

/// Converting the converted file gives back the name of the input file:
/// the second output has the file name and the encoding of the first input.
pub proof fn lemma_output_of_output(
    source: InputSourceView,
    output_dir: Seq<char>,
    second_dir: Seq<char>,
)
    requires
        source.wf(),
    ensures
        ({
            let converted = InputSourceView {
                path: source.output_path(output_dir),
                format: source.output_format(),
            };
            &&& converted.wf()
            &&& converted.output_format() == source.format
            &&& Some(converted.output_file_name()) == file_name(source.path)
            &&& converted.output_path(second_dir) == join(
                second_dir,
                file_name(source.path)->Some_0,
            )
        }),
{
    lemma_output_has_opposite_format(source, output_dir);
    lemma_opposite_swaps(source.format);
    lemma_stem_of_path_with_extension(source.path);
    lemma_extension_names_format(source.format, extension(source.path)->Some_0);
}

} // verus!
