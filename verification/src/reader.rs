//! The image decoder: it walks the chunks of a file, gathers the header and
//! the compressed image data, has the data inflated and reconstructs the
//! pixel grid from it.

use vstd::prelude::*;
use crate::ancillary::{timestamp_spec, valid_text};
use crate::chunk::{
    be_u32, chunk_end, chunk_fits, chunk_payload, chunk_tag, has_signature, parse_chunk, same_tag,
    RawChunk, SIGNATURE, TAG_DATA, TAG_HEADER, TAG_TEXT, TAG_TIME,
};
use crate::color::Pixel;
use crate::error::DecodeError;
use crate::header::{header_spec, supported_header, ImageHeader};
use crate::inflate::{inflate, zlib_inflated};
use crate::scanline::{grid_view, has_extent, reconstruct, reconstruct_spec};

verus! {

/// A decoder for one file. It is made from the bytes of the file; `read`
/// then fills in the header and the pixels.
pub struct PngReader {
    bytes: Vec<u8>,
    header: Option<ImageHeader>,
    image_data: Vec<u8>,
    pixel_data: Vec<Vec<Pixel>>,
}

/// What a reader holds: the bytes of the file, the header if one was read,
/// the compressed image data gathered so far, and the rows of pixels.
pub struct ReaderView {
    pub bytes: Seq<u8>,
    pub header: Option<ImageHeader>,
    pub payload: Seq<u8>,
    pub pixels: Seq<Seq<Pixel>>,
}

/// What the walk through the chunks gathers.
pub struct DecodeState {
    pub header: Option<ImageHeader>,
    pub payload: Seq<u8>,
}

impl DecodeState {
    /// The state before the first chunk.
    pub open spec fn initial() -> DecodeState {
        DecodeState { header: None, payload: Seq::empty() }
    }
}

impl ReaderView {
    /// The view of a reader that holds the bytes of a file and nothing else.
    pub open spec fn fresh(bytes: Seq<u8>) -> ReaderView {
        ReaderView { bytes, header: None, payload: Seq::empty(), pixels: Seq::empty() }
    }

    /// The header and the compressed image data.
    pub open spec fn state(self) -> DecodeState {
        DecodeState { header: self.header, payload: self.payload }
    }

    /// This view with another header and other compressed image data.
    pub open spec fn with_state(self, state: DecodeState) -> ReaderView {
        ReaderView { header: state.header, payload: state.payload, ..self }
    }
}

impl View for PngReader {
    type V = ReaderView;

    closed spec fn view(&self) -> ReaderView {
        ReaderView {
            bytes: self.bytes@,
            header: self.header,
            payload: self.image_data@,
            pixels: grid_view(self.pixel_data@),
        }
    }
}

/// What one chunk does to the state. The header chunk sets the header; it
/// is `InvalidHeader` for it to come twice. A data chunk adds its payload
/// to the compressed image data; it is `InvalidHeader` for it to come
/// before the header chunk. A text or timestamp chunk is checked and
/// changes nothing. A chunk of any other type is passed over.
pub open spec fn handle_chunk(state: DecodeState, tag: Seq<u8>, payload: Seq<u8>) -> Result<
    DecodeState,
    DecodeError,
> {
    if tag == TAG_HEADER@ {
        if state.header is Some {
            Err(DecodeError::InvalidHeader)
        } else {
            match header_spec(payload) {
                Ok(header) => Ok(DecodeState { header: Some(header), payload: state.payload }),
                Err(e) => Err(e),
            }
        }
    } else if tag == TAG_DATA@ {
        if state.header is None {
            Err(DecodeError::InvalidHeader)
        } else {
            Ok(DecodeState { header: state.header, payload: state.payload + payload })
        }
    } else if tag == TAG_TEXT@ {
        if valid_text(payload) {
            Ok(state)
        } else {
            Err(DecodeError::InvalidText)
        }
    } else if tag == TAG_TIME@ {
        match timestamp_spec(payload) {
            Ok(_) => Ok(state),
            Err(e) => Err(e),
        }
    } else {
        Ok(state)
    }
}

/// The state after the chunk that starts at `idx`, and the offset just
/// behind that chunk; `TruncatedChunk` if the input ends before the chunk
/// does.
pub open spec fn read_chunk_spec(bytes: Seq<u8>, idx: int, state: DecodeState) -> Result<
    (DecodeState, int),
    DecodeError,
> {
    if !chunk_fits(bytes, idx) {
        Err(DecodeError::TruncatedChunk)
    } else {
        match handle_chunk(state, chunk_tag(bytes, idx), chunk_payload(bytes, idx)) {
            Ok(next) => Ok((next, chunk_end(bytes, idx))),
            Err(e) => Err(e),
        }
    }
}

/// The state after all chunks from `idx` to the end of the input, or the
/// first error on the way.
pub open spec fn walk_chunks(bytes: Seq<u8>, idx: int, state: DecodeState) -> Result<
    DecodeState,
    DecodeError,
>
    decreases bytes.len() - idx,
{
    if idx >= bytes.len() {
        Ok(state)
    } else if !chunk_fits(bytes, idx) {
        Err(DecodeError::TruncatedChunk)
    } else {
        match handle_chunk(state, chunk_tag(bytes, idx), chunk_payload(bytes, idx)) {
            Ok(next) => walk_chunks(bytes, chunk_end(bytes, idx), next),
            Err(e) => Err(e),
        }
    }
}

/// The pixels of an image with the given header whose compressed image
/// data inflates to `inflated`; `DecompressionFailed` where it does not
/// inflate.
pub open spec fn inflated_pixels_spec(header: ImageHeader, inflated: Option<Seq<u8>>) -> Result<
    Seq<Seq<Pixel>>,
    DecodeError,
> {
    match inflated {
        Some(data) => reconstruct_spec(header.width, header.height, header.color_type, data),
        None => Err(DecodeError::DecompressionFailed),
    }
}

/// The pixels that the gathered header and compressed image data stand
/// for; `InvalidHeader` where no header was read.
pub open spec fn pixels_spec(state: DecodeState) -> Result<Seq<Seq<Pixel>>, DecodeError> {
    match state.header {
        Some(header) => inflated_pixels_spec(header, zlib_inflated(state.payload)),
        None => Err(DecodeError::InvalidHeader),
    }
}

/// What a reader holds after it has read the file `bytes`, or the error
/// with which reading ends: `MalformedSignature` unless the file starts
/// with the signature, else the first error in the chunks behind it, else
/// the error in turning the gathered data into pixels.
pub open spec fn decode_spec(bytes: Seq<u8>) -> Result<ReaderView, DecodeError> {
    if !has_signature(bytes) {
        Err(DecodeError::MalformedSignature)
    } else {
        match walk_chunks(bytes, SIGNATURE@.len() as int, DecodeState::initial()) {
            Ok(state) => match pixels_spec(state) {
                Ok(pixels) => Ok(
                    ReaderView { bytes, header: state.header, payload: state.payload, pixels },
                ),
                Err(e) => Err(e),
            },
            Err(e) => Err(e),
        }
    }
}

/// A file that decodes gives a supported header and a grid of exactly the
/// extent that the header states: `height` rows of `width` pixels each.
pub proof fn lemma_decoded_extent(bytes: Seq<u8>)
    ensures
        decode_spec(bytes) matches Ok(view) ==> {
            &&& view.bytes == bytes
            &&& view.header matches Some(header)
            &&& supported_header(header)
            &&& has_extent(view.pixels, header.width as nat, header.height as nat)
        },
{
    if has_signature(bytes) {
        lemma_walk_keeps_header_supported(bytes, SIGNATURE@.len() as int, DecodeState::initial());
    }
}

/// The header that the walk through the chunks ends with is a supported
/// one, if the header it starts with is.
pub proof fn lemma_walk_keeps_header_supported(bytes: Seq<u8>, idx: int, state: DecodeState)
    requires
        state.header matches Some(header) ==> supported_header(header),
    ensures
        walk_chunks(bytes, idx, state) matches Ok(last) ==> (last.header matches Some(header)
            ==> supported_header(header)),
    decreases bytes.len() - idx,
{
    if idx < bytes.len() && chunk_fits(bytes, idx) {
        match handle_chunk(state, chunk_tag(bytes, idx), chunk_payload(bytes, idx)) {
            Ok(next) => {
                lemma_walk_keeps_header_supported(bytes, chunk_end(bytes, idx), next);
            },
            Err(_) => {},
        }
    }
}

/// A chunk of a type that the decoder does not know is passed over: the
/// state stays as it is, and the walk goes on just behind the chunk, twelve
/// bytes and the declared length after its start.
pub proof fn lemma_unknown_chunk_skipped(bytes: Seq<u8>, idx: int, state: DecodeState)
    requires
        chunk_fits(bytes, idx),
        chunk_tag(bytes, idx) != TAG_HEADER@,
        chunk_tag(bytes, idx) != TAG_DATA@,
        chunk_tag(bytes, idx) != TAG_TEXT@,
        chunk_tag(bytes, idx) != TAG_TIME@,
    ensures
        read_chunk_spec(bytes, idx, state) == Ok::<(DecodeState, int), DecodeError>(
            (state, idx + 12 + be_u32(bytes, idx)),
        ),
        walk_chunks(bytes, idx, state) == walk_chunks(
            bytes,
            idx + 12 + be_u32(bytes, idx),
            state,
        ),
{
}

impl PngReader {
    /// Makes a reader for the bytes of a file.
    pub fn new(bytes: Vec<u8>) -> (reader: Self)
        ensures
            reader@ == ReaderView::fresh(bytes@),
    {
        let reader = Self { bytes, header: None, image_data: Vec::new(), pixel_data: Vec::new() };
        assert(reader@.pixels =~= Seq::empty());
        reader
    }

    /// Decodes the file. On success the reader holds the header, the
    /// compressed image data and the pixels. On failure it holds none of
    /// them, whatever it held before.
    pub fn read(&mut self) -> (r: Result<(), DecodeError>)
        ensures
            match decode_spec(old(self)@.bytes) {
                Ok(view) => r is Ok && final(self)@ == view,
                Err(e) => r == Err::<(), DecodeError>(e) && final(self)@ == ReaderView::fresh(
                    old(self)@.bytes,
                ),
            },
            r is Ok ==> (final(self)@.header matches Some(header) && has_extent(
                final(self)@.pixels,
                header.width as nat,
                header.height as nat,
            )),
    {
        proof {
            lemma_decoded_extent(self@.bytes);
        }
        self.header = None;
        self.image_data = Vec::new();
        self.pixel_data = Vec::new();
        assert(self@.pixels =~= Seq::empty());
        assert(self@ == ReaderView::fresh(old(self)@.bytes));
        let r: Result<(), DecodeError> = self.read_stream();
        if r.is_err() {
            self.header = None;
            self.image_data = Vec::new();
        }
        r
    }

    /// Reads the signature, the chunks and the image data into a reader
    /// that holds nothing yet.
    fn read_stream(&mut self) -> (r: Result<(), DecodeError>)
        requires
            old(self)@ == ReaderView::fresh(old(self)@.bytes),
        ensures
            final(self)@.bytes == old(self)@.bytes,
            match decode_spec(old(self)@.bytes) {
                Ok(view) => r is Ok && final(self)@ == view,
                Err(e) => r == Err::<(), DecodeError>(e) && final(self)@.pixels == Seq::<
                    Seq<Pixel>,
                >::empty(),
            },
    {
        let mut idx: usize = match self.read_signature() {
            Ok(n) => n,
            Err(e) => {
                return Err(e);
            },
        };
        assert(self@.state() == DecodeState::initial());
        while idx < self.bytes.len()
            invariant
                self@.bytes == old(self)@.bytes,
                self@.pixels == Seq::<Seq<Pixel>>::empty(),
                has_signature(self@.bytes),
                walk_chunks(self@.bytes, SIGNATURE@.len() as int, DecodeState::initial())
                    == walk_chunks(self@.bytes, idx as int, self@.state()),
            decreases self@.bytes.len() - idx,
        {
            idx = match self.read_chunk(idx) {
                Ok(next) => next,
                Err(e) => {
                    return Err(e);
                },
            };
        }
        self.decode_image_data()
    }

    /// Checks that the file starts with the signature, and returns the
    /// offset of the first chunk.
    pub fn read_signature(&self) -> (r: Result<usize, DecodeError>)
        ensures
            has_signature(self@.bytes) ==> r == Ok::<usize, DecodeError>(8),
            !has_signature(self@.bytes) ==> r == Err::<usize, DecodeError>(
                DecodeError::MalformedSignature,
            ),
    {
        let len: usize = SIGNATURE.len();
        if self.bytes.len() < len {
            return Err(DecodeError::MalformedSignature);
        }
        let mut i: usize = 0;
        while i < len
            invariant
                i <= len,
                len == 8,
                self.bytes@.len() >= 8,
                forall|j: int| 0 <= j < i ==> self.bytes@[j] == SIGNATURE@[j],
            decreases len - i,
        {
            if self.bytes[i] != SIGNATURE[i] {
                assert(self.bytes@.subrange(0, 8)[i as int] != SIGNATURE@[i as int]);
                return Err(DecodeError::MalformedSignature);
            }
            i = i + 1;
        }
        assert(self.bytes@.subrange(0, 8) =~= SIGNATURE@);
        Ok(len)
    }

    /// Parses the chunk that starts at `idx`, lets it take effect and
    /// returns the offset just behind it. On failure the reader is left as
    /// it was.
    pub fn read_chunk(&mut self, idx: usize) -> (r: Result<usize, DecodeError>)
        ensures
            match read_chunk_spec(old(self)@.bytes, idx as int, old(self)@.state()) {
                Ok((state, next)) => r == Ok::<usize, DecodeError>(next as usize) && next
                    <= usize::MAX && final(self)@ == old(self)@.with_state(state),
                Err(e) => r == Err::<usize, DecodeError>(e) && final(self)@ == old(self)@,
            },
    {
        let (chunk, next): (RawChunk, usize) = match parse_chunk(self.bytes.as_slice(), idx) {
            Ok(parsed) => parsed,
            Err(e) => {
                return Err(e);
            },
        };
        if same_tag(&chunk.type_tag, &TAG_HEADER) {
            if self.header.is_some() {
                return Err(DecodeError::InvalidHeader);
            }
            match Self::read_chunk_ihdr(chunk.payload.as_slice()) {
                Ok(header) => {
                    self.header = Some(header);
                },
                Err(e) => {
                    return Err(e);
                },
            }
        } else if same_tag(&chunk.type_tag, &TAG_DATA) {
            match self.read_chunk_idat(chunk.payload.as_slice()) {
                Ok(()) => {},
                Err(e) => {
                    return Err(e);
                },
            }
        } else if same_tag(&chunk.type_tag, &TAG_TEXT) {
            match Self::read_chunk_text(chunk.payload.as_slice()) {
                Ok(_) => {},
                Err(e) => {
                    return Err(e);
                },
            }
        } else if same_tag(&chunk.type_tag, &TAG_TIME) {
            match Self::read_chunk_time(chunk.payload.as_slice()) {
                Ok(_) => {},
                Err(e) => {
                    return Err(e);
                },
            }
        }
        Ok(next)
    }

    /// Adds the payload of a data chunk to the compressed image data. Fails
    /// with `InvalidHeader`, and adds nothing, if no header was read yet.
    pub fn read_chunk_idat(&mut self, data: &[u8]) -> (r: Result<(), DecodeError>)
        ensures
            old(self)@.header is Some ==> r is Ok && final(self)@ == (ReaderView {
                payload: old(self)@.payload + data@,
                ..old(self)@
            }),
            old(self)@.header is None ==> r == Err::<(), DecodeError>(DecodeError::InvalidHeader)
                && final(self)@ == old(self)@,
    {
        if self.header.is_none() {
            return Err(DecodeError::InvalidHeader);
        }
        self.image_data.extend_from_slice(data);
        assert(self.image_data@ =~= old(self).image_data@ + data@);
        Ok(())
    }

    /// Turns the inflated image data of an image with the given header into
    /// pixels; `inflated` is `None` where the compressed image data did not
    /// inflate, which is `DecompressionFailed`.
    pub fn pixels_from_inflated(header: &ImageHeader, inflated: Option<Vec<u8>>) -> (r: Result<
        Vec<Vec<Pixel>>,
        DecodeError,
    >)
        ensures
            match inflated_pixels_spec(
                *header,
                match inflated {
                    Some(data) => Some(data@),
                    None => None,
                },
            ) {
                Ok(image) => r matches Ok(grid) && grid_view(grid@) == image,
                Err(e) => r == Err::<Vec<Vec<Pixel>>, DecodeError>(e),
            },
    {
        match inflated {
            Some(data) => reconstruct(
                header.width,
                header.height,
                header.color_type,
                data.as_slice(),
            ),
            None => Err(DecodeError::DecompressionFailed),
        }
    }

    /// Inflates the gathered image data and reconstructs the pixels from
    /// it. On failure the reader is left as it was.
    pub fn decode_image_data(&mut self) -> (r: Result<(), DecodeError>)
        ensures
            match pixels_spec(old(self)@.state()) {
                Ok(pixels) => r is Ok && final(self)@ == (ReaderView { pixels, ..old(self)@ }),
                Err(e) => r == Err::<(), DecodeError>(e) && final(self)@ == old(self)@,
            },
    {
        let header: ImageHeader = match self.header {
            Some(header) => header,
            None => {
                return Err(DecodeError::InvalidHeader);
            },
        };
        let inflated: Option<Vec<u8>> = inflate(self.image_data.as_slice());
        match Self::pixels_from_inflated(&header, inflated) {
            Ok(grid) => {
                self.pixel_data = grid;
                Ok(())
            },
            Err(e) => Err(e),
        }
    }

    /// The header of the image, if one has been read.
    pub fn header(&self) -> (header: Option<ImageHeader>)
        ensures
            header == self@.header,
    {
        self.header
    }

    /// The width of the image in pixels; zero as long as no header is read.
    pub fn width(&self) -> (width: u32)
        ensures
            width == match self@.header {
                Some(header) => header.width,
                None => 0,
            },
    {
        match self.header {
            Some(header) => header.width,
            None => 0,
        }
    }

    /// The height of the image in pixels; zero as long as no header is
    /// read.
    pub fn height(&self) -> (height: u32)
        ensures
            height == match self@.header {
                Some(header) => header.height,
                None => 0,
            },
    {
        match self.header {
            Some(header) => header.height,
            None => 0,
        }
    }

    /// The rows of pixels; none as long as no image data has been decoded.
    pub fn pixel_data(&self) -> (pixels: &Vec<Vec<Pixel>>)
        ensures
            grid_view(pixels@) == self@.pixels,
    {
        &self.pixel_data
    }
}

} // verus!
