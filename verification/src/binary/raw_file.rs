//! A whole file as the decoder first sees it: the header and the frames
//! with their chunks.

use vstd::prelude::*;
use vstd::slice::slice_subrange;
use crate::binary::errors::ParseError;
use crate::binary::header::{parse_header, spec_parse_header, Header, HEADER_SIZE};
use crate::binary::raw_frame::{parse_frames, spec_parse_frames, RawFrame, RawFrameView};
use crate::binary::repeat::views;

verus! {

#[derive(Debug)]
pub struct RawFile<'a> {
    pub header: Header,
    pub frames: Vec<RawFrame<'a>>,
}

pub struct RawFileView {
    pub header: Header,
    pub frames: Seq<RawFrameView>,
}

impl View for RawFile<'_> {
    type V = RawFileView;

    open spec fn view(&self) -> RawFileView {
        RawFileView { header: self.header, frames: views(self.frames@) }
    }
}

/// A file: the header, then the frames. The size that the header declares
/// bounds the file: the frames take every byte up to it, and bytes behind it
/// are not read. A size under that of the header or over the bytes at hand
/// is refused.
pub open spec fn spec_parse_raw_file(s: Seq<u8>) -> Result<RawFileView, ParseError> {
    match spec_parse_header(s) {
        Err(e) => Err(e),
        Ok((_, header)) => if header.file_size < HEADER_SIZE || header.file_size > s.len() {
            Err(ParseError::InvalidFileSize(header.file_size))
        } else {
            match spec_parse_frames(s.subrange(HEADER_SIZE as int, header.file_size as int)) {
                Err(e) => Err(e),
                Ok((_, frames)) => Ok(RawFileView { header, frames }),
            }
        },
    }
}

pub fn parse_raw_file(input: &[u8]) -> (r: Result<RawFile<'_>, ParseError>)
    ensures
        match r {
            Ok(file) => spec_parse_raw_file(input@) == Ok::<RawFileView, ParseError>(file@),
            Err(e) => spec_parse_raw_file(input@) == Err::<RawFileView, ParseError>(e),
        },
{
    let (_, header) = parse_header(input)?;
    if header.file_size < HEADER_SIZE as u32 || header.file_size as usize > input.len() {
        return Err(ParseError::InvalidFileSize(header.file_size));
    }
    let body = slice_subrange(input, HEADER_SIZE, header.file_size as usize);
    let (_, frames) = parse_frames(body)?;
    Ok(RawFile { header, frames })
}

} // verus!
