//! The headers of an ID3v2 tag and of its frames.
use vstd::prelude::*;

verus! {

/// The header of a tag. A footer holds the same.
#[derive(Debug)]
pub struct Header {
    pub version: u8,
    /// In bytes, without the header itself; up to 256 MB.
    pub size: u32,
    pub is_unsynchronized: bool,
    pub is_experimental: bool,
    pub has_footer: bool,
    pub extended_header: Option<ExtendedHeader>,
}

/// The optional second header of a tag.
#[derive(Debug)]
pub struct ExtendedHeader {
    pub size: u32,
    pub tag_is_update: bool,
    pub crc32: Option<u32>,
    pub restrictions: Option<u8>,
}

/// The header of one frame.
#[derive(Debug)]
pub struct FrameHeader {
    pub name: String,
    pub drop_after_tag_alteration: bool,
    pub drop_after_file_alteration: bool,
    pub is_unsynchronized: bool,
    pub is_compressed: bool,
    pub size: u32,
}

/// What contracts say of a [`FrameHeader`].
pub struct FrameHeaderView {
    pub name: Seq<char>,
    pub drop_after_tag_alteration: bool,
    pub drop_after_file_alteration: bool,
    pub is_unsynchronized: bool,
    pub is_compressed: bool,
    pub size: u32,
}

impl View for FrameHeader {
    type V = FrameHeaderView;

    open spec fn view(&self) -> FrameHeaderView {
        FrameHeaderView {
            name: self.name@,
            drop_after_tag_alteration: self.drop_after_tag_alteration,
            drop_after_file_alteration: self.drop_after_file_alteration,
            is_unsynchronized: self.is_unsynchronized,
            is_compressed: self.is_compressed,
            size: self.size,
        }
    }
}

impl Default for Header {
    fn default() -> (r: Header)
        ensures
            r == (Header {
                version: 0,
                size: 0,
                is_unsynchronized: false,
                is_experimental: false,
                has_footer: false,
                extended_header: None,
            }),
    {
        Header {
            version: 0,
            size: 0,
            is_unsynchronized: false,
            is_experimental: false,
            has_footer: false,
            extended_header: None,
        }
    }
}

impl Default for FrameHeader {
    fn default() -> (r: FrameHeader)
        ensures
            r@ == (FrameHeaderView {
                name: Seq::empty(),
                drop_after_tag_alteration: false,
                drop_after_file_alteration: false,
                is_unsynchronized: false,
                is_compressed: false,
                size: 0,
            }),
    {
        FrameHeader {
            name: String::new(),
            drop_after_tag_alteration: false,
            drop_after_file_alteration: false,
            is_unsynchronized: false,
            is_compressed: false,
            size: 0,
        }
    }
}

} // verus!
