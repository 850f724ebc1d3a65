//! Raw image data decoded from an encoded byte stream.

use vstd::prelude::*;

verus! {

/// What decoding a PNG byte stream yields: pixel dimensions and the raw
/// buffer, or nothing for a stream the decoder rejects.  The result depends
/// on the bytes alone.
pub uninterp spec fn png_decode_of(bytes: Seq<u8>) -> Option<((u32, u32), Seq<u8>)>;

/// Raw image data: pixel dimensions and the decoded buffer.
pub struct PNGData {
    pub dimensions: (u32, u32),
    pub data: Vec<u8>,
}

/// Relies on png::Decoder and png::Reader::next_frame: decodes the first
/// frame of a PNG byte stream into a buffer of the size the reader asks for,
/// together with the frame's pixel dimensions; every decoder failure is
/// reported as nothing.
#[verifier::external_body]
pub fn load_png_data_from_bytes(bytes: &Vec<u8>) -> (r: Option<PNGData>)
    ensures
        match r {
            Some(d) => png_decode_of(bytes@) == Some((d.dimensions, d.data@)),
            None => png_decode_of(bytes@) is None,
        },
{
    let decoder = png::Decoder::new(std::io::Cursor::new(bytes.as_slice()));
    let mut reader = match decoder.read_info() {
        Ok(reader) => reader,
        Err(_) => return None,
    };
    let mut data = vec![0u8; reader.output_buffer_size()];
    match reader.next_frame(&mut data) {
        Ok(info) => Some(PNGData { dimensions: (info.width, info.height), data }),
        Err(_) => None,
    }
}

} // verus!
