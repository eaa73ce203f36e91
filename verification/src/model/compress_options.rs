use vstd::prelude::*;

use super::Profile;

verus! {

/// Options for the compressor.
#[derive(Clone, Copy, Debug, PartialEq, Eq, Hash, Structural)]
pub struct CompressOptions {
    min_match_len: i32,
    seek_chunk_reset: bool,
    seek_chunk_len: i32,
    profile: Profile,
    dictionary_size: i32,
    space_speed_tradeoff_bytes: i32,
    send_quantum_crcs: bool,
    max_local_dictionary_size: i32,
    make_long_range_matcher: bool,
    match_table_size_log2: i32,
    far_match_min_len: i32,
    far_match_offset_log2: i32,
}

/// The value of a [`CompressOptions`]: each of its settings.
pub struct CompressOptionsView {
    /// See [`CompressOptions::min_match_len`].
    pub min_match_len: i32,
    /// See [`CompressOptions::seek_chunk_reset`].
    pub seek_chunk_reset: bool,
    /// See [`CompressOptions::seek_chunk_len`].
    pub seek_chunk_len: i32,
    /// See [`CompressOptions::profile`].
    pub profile: Profile,
    /// See [`CompressOptions::dictionary_size`].
    pub dictionary_size: i32,
    /// See [`CompressOptions::space_speed_tradeoff_bytes`].
    pub space_speed_tradeoff_bytes: i32,
    /// See [`CompressOptions::send_quantum_crcs`].
    pub send_quantum_crcs: bool,
    /// See [`CompressOptions::max_local_dictionary_size`].
    pub max_local_dictionary_size: i32,
    /// See [`CompressOptions::make_long_range_matcher`].
    pub make_long_range_matcher: bool,
    /// See [`CompressOptions::match_table_size_log2`].
    pub match_table_size_log2: i32,
    /// See [`CompressOptions::far_match_min_len`].
    pub far_match_min_len: i32,
    /// See [`CompressOptions::far_match_offset_log2`].
    pub far_match_offset_log2: i32,
}

impl View for CompressOptions {
    type V = CompressOptionsView;

    closed spec fn view(&self) -> CompressOptionsView {
        CompressOptionsView {
            min_match_len: self.min_match_len,
            seek_chunk_reset: self.seek_chunk_reset,
            seek_chunk_len: self.seek_chunk_len,
            profile: self.profile,
            dictionary_size: self.dictionary_size,
            space_speed_tradeoff_bytes: self.space_speed_tradeoff_bytes,
            send_quantum_crcs: self.send_quantum_crcs,
            max_local_dictionary_size: self.max_local_dictionary_size,
            make_long_range_matcher: self.make_long_range_matcher,
            match_table_size_log2: self.match_table_size_log2,
            far_match_min_len: self.far_match_min_len,
            far_match_offset_log2: self.far_match_offset_log2,
        }
    }
}

/// The default settings.
pub open spec fn default_options() -> CompressOptionsView {
    CompressOptionsView {
        min_match_len: 0,
        seek_chunk_reset: false,
        seek_chunk_len: 262144,
        profile: Profile::Main,
        dictionary_size: 0,
        space_speed_tradeoff_bytes: 256,
        send_quantum_crcs: false,
        max_local_dictionary_size: 2097152,
        make_long_range_matcher: true,
        match_table_size_log2: 0,
        far_match_min_len: 0,
        far_match_offset_log2: 0,
    }
}

impl Default for CompressOptions {
    fn default() -> (r: Self)
        ensures
            r@ == default_options(),
    {
        Self::new()
    }
}

impl CompressOptions {
    /// Returns the default [`CompressOptions`].
    pub fn new() -> (r: Self)
        ensures
            r@ == default_options(),
    {
        Self {
            min_match_len: 0,
            seek_chunk_reset: false,
            seek_chunk_len: 262144,
            profile: Profile::Main,
            dictionary_size: 0,
            space_speed_tradeoff_bytes: 256,
            send_quantum_crcs: false,
            max_local_dictionary_size: 2097152,
            make_long_range_matcher: true,
            match_table_size_log2: 0,
            far_match_min_len: 0,
            far_match_offset_log2: 0,
        }
    }

    /// Creates a [`CompressOptionsBuilder`] holding the default settings.
    pub fn builder() -> (r: CompressOptionsBuilder)
        ensures
            r@ == default_options(),
    {
        CompressOptionsBuilder::new()
    }

    /// Minimum match length.
    /// Cannot be used to reduce a compressor's default minimum match length,
    /// but can be higher. On some types of data, a large value (6 or 8) is a
    /// space-speed win.
    pub fn min_match_len(self) -> (r: i32)
        ensures
            r == self@.min_match_len,
    {
        self.min_match_len
    }

    /// Whether chunks should be independent, for seeking and parallelism.
    pub fn seek_chunk_reset(self) -> (r: bool)
        ensures
            r == self@.seek_chunk_reset,
    {
        self.seek_chunk_reset
    }

    /// Length of independent seek chunks (if `seek_chunk_reset`).
    /// Must be a power of 2 and at least 1 << 18.
    pub fn seek_chunk_len(self) -> (r: i32)
        ensures
            r == self@.seek_chunk_len,
    {
        self.seek_chunk_len
    }

    /// Decoder profile to target.
    pub fn profile(self) -> (r: Profile)
        ensures
            r == self@.profile,
    {
        self.profile
    }

    /// Maximum offset for matches, if lower than the maximum the format
    /// supports. A value of 0 or less means the whole buffer.
    pub fn dictionary_size(self) -> (r: i32)
        ensures
            r == self@.dictionary_size,
    {
        self.dictionary_size
    }

    /// Number of bytes of compressed size that a speed-decreasing decision
    /// must gain to be accepted.
    pub fn space_speed_tradeoff_bytes(self) -> (r: i32)
        ensures
            r == self@.space_speed_tradeoff_bytes,
    {
        self.space_speed_tradeoff_bytes
    }

    /// Whether the encoder sends a CRC of each compressed quantum, for
    /// integrity checks. This is needed to use `check_crc` on decode.
    pub fn send_quantum_crcs(self) -> (r: bool)
        ensures
            r == self@.send_quantum_crcs,
    {
        self.send_quantum_crcs
    }

    /// Size of the local dictionary before a long range matcher is needed.
    /// Must be a power of 2 and at most 1 << 30.
    pub fn max_local_dictionary_size(self) -> (r: i32)
        ensures
            r == self@.max_local_dictionary_size,
    {
        self.max_local_dictionary_size
    }

    /// Whether the encoder finds matches beyond `max_local_dictionary_size`
    /// with a long range matcher.
    pub fn make_long_range_matcher(self) -> (r: bool)
        ensures
            r == self@.make_long_range_matcher,
    {
        self.make_long_range_matcher
    }

    /// Size of the match finder structure, as a log2; 0 means the
    /// compressor's default.
    pub fn match_table_size_log2(self) -> (r: i32)
        ensures
            r == self@.match_table_size_log2,
    {
        self.match_table_size_log2
    }

    /// Minimum length of far matches.
    pub fn far_match_min_len(self) -> (r: i32)
        ensures
            r == self@.far_match_min_len,
    {
        self.far_match_min_len
    }

    /// If not zero, the log2 of an offset that must meet `far_match_min_len`.
    pub fn far_match_offset_log2(self) -> (r: i32)
        ensures
            r == self@.far_match_offset_log2,
    {
        self.far_match_offset_log2
    }
}

/// Builder for [`CompressOptions`].
#[derive(Clone, Copy, Debug, PartialEq, Eq, Hash, Structural)]
pub struct CompressOptionsBuilder(CompressOptions);

impl View for CompressOptionsBuilder {
    type V = CompressOptionsView;

    closed spec fn view(&self) -> CompressOptionsView {
        self.0@
    }
}

impl CompressOptionsBuilder {
    /// Creates a builder holding the default settings.
    fn new() -> (r: Self)
        ensures
            r@ == default_options(),
    {
        Self(CompressOptions::new())
    }

    /// Builds the [`CompressOptions`].
    pub fn build(self) -> (r: CompressOptions)
        ensures
            r@ == self@,
    {
        self.0
    }

    /// Sets the minimum match length; every other setting stays.
    pub fn min_match_len(self, min_match_len: i32) -> (r: Self)
        ensures
            r@ == (CompressOptionsView { min_match_len, ..self@ }),
    {
        let mut options = self.0;
        options.min_match_len = min_match_len;
        Self(options)
    }

    /// Sets whether seek chunks are reset; every other setting stays.
    pub fn seek_chunk_reset(self, seek_chunk_reset: bool) -> (r: Self)
        ensures
            r@ == (CompressOptionsView { seek_chunk_reset, ..self@ }),
    {
        let mut options = self.0;
        options.seek_chunk_reset = seek_chunk_reset;
        Self(options)
    }

    /// Sets the length of the seek chunks; every other setting stays.
    pub fn seek_chunk_len(self, seek_chunk_len: i32) -> (r: Self)
        ensures
            r@ == (CompressOptionsView { seek_chunk_len, ..self@ }),
    {
        let mut options = self.0;
        options.seek_chunk_len = seek_chunk_len;
        Self(options)
    }

    /// Sets the profile; every other setting stays.
    pub fn profile(self, profile: Profile) -> (r: Self)
        ensures
            r@ == (CompressOptionsView { profile, ..self@ }),
    {
        let mut options = self.0;
        options.profile = profile;
        Self(options)
    }

    /// Sets the dictionary size; every other setting stays.
    pub fn dictionary_size(self, dictionary_size: i32) -> (r: Self)
        ensures
            r@ == (CompressOptionsView { dictionary_size, ..self@ }),
    {
        let mut options = self.0;
        options.dictionary_size = dictionary_size;
        Self(options)
    }

    /// Sets the space-speed tradeoff bytes; every other setting stays.
    pub fn space_speed_tradeoff_bytes(self, space_speed_tradeoff_bytes: i32) -> (r: Self)
        ensures
            r@ == (CompressOptionsView { space_speed_tradeoff_bytes, ..self@ }),
    {
        let mut options = self.0;
        options.space_speed_tradeoff_bytes = space_speed_tradeoff_bytes;
        Self(options)
    }

    /// Sets whether quantum CRCs are sent; every other setting stays.
    pub fn send_quantum_crcs(self, send_quantum_crcs: bool) -> (r: Self)
        ensures
            r@ == (CompressOptionsView { send_quantum_crcs, ..self@ }),
    {
        let mut options = self.0;
        options.send_quantum_crcs = send_quantum_crcs;
        Self(options)
    }

    /// Sets the maximum local dictionary size; every other setting stays.
    pub fn max_local_dictionary_size(self, max_local_dictionary_size: i32) -> (r: Self)
        ensures
            r@ == (CompressOptionsView { max_local_dictionary_size, ..self@ }),
    {
        let mut options = self.0;
        options.max_local_dictionary_size = max_local_dictionary_size;
        Self(options)
    }

    /// Sets whether a long-range matcher is made; every other setting stays.
    pub fn make_long_range_matcher(self, make_long_range_matcher: bool) -> (r: Self)
        ensures
            r@ == (CompressOptionsView { make_long_range_matcher, ..self@ }),
    {
        let mut options = self.0;
        options.make_long_range_matcher = make_long_range_matcher;
        Self(options)
    }

    /// Sets the match table size log2; every other setting stays.
    pub fn match_table_size_log2(self, match_table_size_log2: i32) -> (r: Self)
        ensures
            r@ == (CompressOptionsView { match_table_size_log2, ..self@ }),
    {
        let mut options = self.0;
        options.match_table_size_log2 = match_table_size_log2;
        Self(options)
    }

    /// Sets the far match minimum length; every other setting stays.
    pub fn far_match_min_len(self, far_match_min_len: i32) -> (r: Self)
        ensures
            r@ == (CompressOptionsView { far_match_min_len, ..self@ }),
    {
        let mut options = self.0;
        options.far_match_min_len = far_match_min_len;
        Self(options)
    }

    /// Sets the far match offset log2; every other setting stays.
    pub fn far_match_offset_log2(self, far_match_offset_log2: i32) -> (r: Self)
        ensures
            r@ == (CompressOptionsView { far_match_offset_log2, ..self@ }),
    {
        let mut options = self.0;
        options.far_match_offset_log2 = far_match_offset_log2;
        Self(options)
    }
}

} // verus!
