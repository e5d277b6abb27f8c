//! The external files chunk: the files that the sprite refers to.

use vstd::prelude::*;
use crate::binary::errors::{ParseError, ParseResult, SpecResult};
use crate::binary::repeat::{
    after, lemma_count_end, lemma_count_start, lemma_count_step, lemma_views_empty,
    lemma_views_push, spec_count, views,
};
use crate::binary::scalars::{
    dword, dword_at, parse_string, read_dword, skip, spec_dword, spec_parse_string, spec_take,
    take,
};

verus! {

#[derive(Debug)]
pub struct ExternalFilesChunk<'a> {
    pub files: Vec<ExternalFile<'a>>,
}

#[derive(Debug, Clone, Copy)]
pub struct ExternalFile<'a> {
    /// ID by which other chunks refer to the file.
    pub id: u32,
    /// What the file provides: 0 a palette, 1 a tileset, 2 the properties
    /// of an extension, 3 a tile management plugin.
    pub file_type: u8,
    /// Name of the file, or ID of the extension.
    pub name: &'a str,
}

pub struct ExternalFileView {
    pub id: u32,
    pub file_type: u8,
    pub name: Seq<char>,
}

pub struct ExternalFilesChunkView {
    pub files: Seq<ExternalFileView>,
}

impl View for ExternalFile<'_> {
    type V = ExternalFileView;

    open spec fn view(&self) -> ExternalFileView {
        ExternalFileView { id: self.id, file_type: self.file_type, name: self.name@ }
    }
}

impl View for ExternalFilesChunk<'_> {
    type V = ExternalFilesChunkView;

    open spec fn view(&self) -> ExternalFilesChunkView {
        ExternalFilesChunkView { files: views(self.files@) }
    }
}

/// Bytes that an entry takes before its name.
pub const EXTERNAL_FILE_FIXED_SIZE: usize = 12;

/// An entry: ID, type, 7 reserved bytes, and the name.
pub open spec fn spec_parse_external_file_entry(s: Seq<u8>) -> SpecResult<ExternalFileView> {
    if s.len() < EXTERNAL_FILE_FIXED_SIZE {
        Err(ParseError::UnexpectedEof)
    } else {
        match spec_parse_string(s.skip(EXTERNAL_FILE_FIXED_SIZE as int)) {
            Err(e) => Err(e),
            Ok((rest, name)) => Ok(
                (rest, ExternalFileView { id: dword_at(s, 0), file_type: s[4], name }),
            ),
        }
    }
}

/// An external files chunk: the number of entries, 8 reserved bytes, then
/// the entries.
pub open spec fn spec_parse_external_files_chunk(s: Seq<u8>) -> SpecResult<ExternalFilesChunkView> {
    match spec_dword(s) {
        Err(e) => Err(e),
        Ok((s, number_of_files)) => match spec_take(s, 8) {
            Err(e) => Err(e),
            Ok((s, _)) => match spec_count(
                |s: Seq<u8>| spec_parse_external_file_entry(s),
                s,
                number_of_files as nat,
            ) {
                Err(e) => Err(e),
                Ok((s, files)) => Ok((s, ExternalFilesChunkView { files })),
            },
        },
    }
}

pub fn parse_external_file_entry(input: &[u8]) -> (r: ParseResult<'_, ExternalFile<'_>>)
    ensures
        match r {
            Ok((rest, file)) => spec_parse_external_file_entry(input@) == Ok::<_, ParseError>(
                (rest@, file@),
            ),
            Err(e) => spec_parse_external_file_entry(input@) == Err::<
                (Seq<u8>, ExternalFileView),
                _,
            >(e),
        },
{
    if input.len() < EXTERNAL_FILE_FIXED_SIZE {
        return Err(ParseError::UnexpectedEof);
    }
    let id = read_dword(input, 0);
    let file_type = input[4];
    let (rest, name) = parse_string(skip(input, EXTERNAL_FILE_FIXED_SIZE))?;
    Ok((rest, ExternalFile { id, file_type, name }))
}

pub fn parse_external_files_chunk(input: &[u8]) -> (r: ParseResult<'_, ExternalFilesChunk<'_>>)
    ensures
        match r {
            Ok((rest, chunk)) => spec_parse_external_files_chunk(input@) == Ok::<_, ParseError>(
                (rest@, chunk@),
            ),
            Err(e) => spec_parse_external_files_chunk(input@) == Err::<
                (Seq<u8>, ExternalFilesChunkView),
                _,
            >(e),
        },
{
    let (rest, number_of_files) = dword(input)?;
    let (rest, _) = take(rest, 8)?;
    let ghost item = |s: Seq<u8>| spec_parse_external_file_entry(s);
    let ghost start = rest@;
    let mut rest = rest;
    let mut files: Vec<ExternalFile<'_>> = Vec::new();
    let mut i: u32 = 0;
    proof {
        lemma_count_start(item, start, number_of_files as nat);
        lemma_views_empty::<ExternalFile<'_>>();
    }
    while i < number_of_files
        invariant
            i <= number_of_files,
            item == (|s: Seq<u8>| spec_parse_external_file_entry(s)),
            spec_parse_external_files_chunk(input@) == match spec_count(
                item,
                start,
                number_of_files as nat,
            ) {
                Err(e) => Err::<(Seq<u8>, ExternalFilesChunkView), ParseError>(e),
                Ok((s, files)) => Ok((s, ExternalFilesChunkView { files })),
            },
            spec_count(item, start, number_of_files as nat) == after(
                views(files@),
                spec_count(item, rest@, (number_of_files - i) as nat),
            ),
        decreases number_of_files - i,
    {
        proof {
            lemma_count_step(item, rest@, (number_of_files - i) as nat, views(files@));
            assert(item(rest@) == spec_parse_external_file_entry(rest@));
        }
        let (after_file, file) = parse_external_file_entry(rest)?;
        proof {
            lemma_views_push(files@, file);
        }
        files.push(file);
        rest = after_file;
        i += 1;
    }
    proof {
        lemma_count_end(item, rest@, views(files@));
    }
    Ok((rest, ExternalFilesChunk { files }))
}

} // verus!
