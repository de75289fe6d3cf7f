//! Lines as SMTP requires them: US-ASCII bytes (RFC 5321, sections 2.3.1 and 2.4) with `CRLF` as
//! the only line ending (section 2.3.8).
use ascii::AsAsciiStr;
use vstd::prelude::*;
use vstd::string::StringSliceAdditionalSpecFns;

verus! {

/// Carriage return.
pub const CR: u8 = 0x0d;

/// Line feed.
pub const LF: u8 = 0x0a;

/// Whether `b` is a US-ASCII byte.
pub open spec fn is_ascii_byte(b: u8) -> bool {
    b <= 0x7f
}

/// Whether every byte of `s` is a US-ASCII byte.
pub open spec fn is_ascii_bytes(s: Seq<u8>) -> bool {
    forall|i: int| 0 <= i < s.len() ==> is_ascii_byte(#[trigger] s[i])
}

/// Whether `s` has only well-formed `CRLF` sequences: every line feed directly follows a carriage
/// return and every carriage return is directly followed by a line feed.
pub open spec fn has_crlf_endings(s: Seq<u8>) -> bool {
    forall|i: int|
        0 <= i < s.len() ==> {
            &&& (#[trigger] s[i] == LF ==> i > 0 && s[i - 1] == CR)
            &&& (s[i] == CR ==> i + 1 < s.len() && s[i + 1] == LF)
        }
}

/// What the byte at `i` of `s` becomes: a line feed without a carriage return before it, or a
/// carriage return without a line feed after it, becomes `CRLF`; any other byte stays.
pub open spec fn repaired(s: Seq<u8>, i: int) -> Seq<u8> {
    if s[i] == LF && !(i > 0 && s[i - 1] == CR) {
        seq![CR, LF]
    } else if s[i] == CR && !(i + 1 < s.len() && s[i + 1] == LF) {
        seq![CR, LF]
    } else {
        seq![s[i]]
    }
}

/// The repaired form of the first `n` bytes of `s`.
pub open spec fn normalize_prefix(s: Seq<u8>, n: int) -> Seq<u8>
    decreases n,
{
    if n <= 0 {
        Seq::empty()
    } else {
        normalize_prefix(s, n - 1) + repaired(s, n - 1)
    }
}

/// `s` with every bare carriage return and every bare line feed turned into `CRLF`, each one
/// repaired on its own (so `"\n\r"` becomes `"\r\n\r\n"`).
pub open spec fn normalize(s: Seq<u8>) -> Seq<u8> {
    normalize_prefix(s, s.len() as int)
}

/// The index of the first byte of `s` that is not US-ASCII, given that there is one.
pub open spec fn is_first_non_ascii(s: Seq<u8>, i: int) -> bool {
    &&& 0 <= i < s.len()
    &&& !is_ascii_byte(s[i])
    &&& is_ascii_bytes(s.take(i))
}

/// Relies on `ascii::AsAsciiStr::as_ascii_str` for byte slices and on
/// `ascii::AsAsciiStrError::valid_up_to`: the conversion fails exactly when a byte is above 0x7f,
/// and the error holds the index of the first such byte.
#[verifier::external_body]
fn first_non_ascii(bytes: &[u8]) -> (r: Option<usize>)
    ensures
        match r {
            None => is_ascii_bytes(bytes@),
            Some(i) => is_first_non_ascii(bytes@, i as int),
        },
{
    match bytes.as_ascii_str() {
        Ok(_) => None,
        Err(e) => Some(e.valid_up_to()),
    }
}

/// The error returned when bytes that should form an SMTP string are not all US-ASCII.
#[derive(PartialEq, Eq, Debug, Clone, Copy)]
pub struct EncodingError {
    valid_up_to: usize,
}

impl EncodingError {
    /// The index of the first byte that is not US-ASCII.
    pub closed spec fn spec_valid_up_to(&self) -> usize {
        self.valid_up_to
    }

    /// Returns the index of the first byte that is not US-ASCII.
    pub fn valid_up_to(&self) -> (r: usize)
        ensures
            r == self.spec_valid_up_to(),
    {
        self.valid_up_to
    }
}

/// Turns every bare carriage return and every bare line feed of `s` into `CRLF`, keeping the
/// `CRLF` sequences that are there already.
///
/// The result has `CRLF` line endings only, so a second pass leaves it as it is.
pub fn replace_endings_with_crlf(s: &[u8]) -> (r: Vec<u8>)
    ensures
        r@ == normalize(s@),
        has_crlf_endings(r@),
        normalize(r@) == r@,
{
    proof {
        lemma_normalize_idempotent(s@);
        lemma_normalize_has_crlf_endings(s@);
    }
    let n = s.len();
    let mut out: Vec<u8> = Vec::new();
    let mut i: usize = 0;
    while i < n
        invariant
            n == s@.len(),
            0 <= i <= n,
            out@ == normalize_prefix(s@, i as int),
        decreases n - i,
    {
        let c = s[i];
        if c == LF && !(i > 0 && s[i - 1] == CR) {
            out.push(CR);
            out.push(LF);
        } else if c == CR && !(i + 1 < n && s[i + 1] == LF) {
            out.push(CR);
            out.push(LF);
        } else {
            out.push(c);
        }
        assert(out@ =~= normalize_prefix(s@, i as int) + repaired(s@, i as int));
        i += 1;
    }
    out
}

/// A string fit for SMTP: every byte is US-ASCII and every line ending is `CRLF`.
///
/// Its methods do not append a line ending: it holds strings, not necessarily whole lines.
#[derive(Debug)]
pub struct SmtpString {
    bytes: Vec<u8>,
}

impl View for SmtpString {
    type V = Seq<u8>;

    closed spec fn view(&self) -> Seq<u8> {
        self.bytes@
    }
}

impl SmtpString {
    #[verifier::type_invariant]
    spec fn well_formed(self) -> bool {
        is_ascii_bytes(self.bytes@) && has_crlf_endings(self.bytes@)
    }

    /// Builds an SMTP string from raw bytes, repairing bare carriage returns and line feeds into
    /// `CRLF`.
    ///
    /// Fails, without repairing anything, when a byte is not US-ASCII; the error then tells where
    /// the first such byte is.
    pub fn from_bytes(bytes: &[u8]) -> (r: Result<SmtpString, EncodingError>)
        ensures
            r is Ok <==> is_ascii_bytes(bytes@),
            r matches Ok(v) ==> v@ == normalize(bytes@),
            r matches Err(e) ==> is_first_non_ascii(bytes@, e.spec_valid_up_to() as int),
    {
        match first_non_ascii(bytes) {
            Some(i) => Err(EncodingError { valid_up_to: i }),
            None => Ok(SmtpString::from_ascii(bytes)),
        }
    }

    /// Builds an SMTP string from a string of ASCII characters, repairing bare carriage returns
    /// and line feeds into `CRLF`.
    ///
    /// Fails when a character is not US-ASCII; the error then tells at which byte of the UTF-8
    /// encoding the first one starts.
    pub fn new(s: &str) -> (r: Result<SmtpString, EncodingError>)
        ensures
            r is Ok <==> is_ascii_bytes(s.spec_bytes()),
            r matches Ok(v) ==> v@ == normalize(s.spec_bytes()),
            r matches Err(e) ==> is_first_non_ascii(s.spec_bytes(), e.spec_valid_up_to() as int),
    {
        SmtpString::from_bytes(s.as_bytes())
    }

    /// Builds an SMTP string from US-ASCII bytes, repairing bare carriage returns and line feeds
    /// into `CRLF`.
    pub(crate) fn from_ascii(bytes: &[u8]) -> (r: SmtpString)
        requires
            is_ascii_bytes(bytes@),
        ensures
            r@ == normalize(bytes@),
    {
        let out = replace_endings_with_crlf(bytes);
        proof {
            lemma_normalize_has_crlf_endings(bytes@);
            lemma_normalize_keeps_ascii(bytes@);
        }
        SmtpString { bytes: out }
    }

    /// Wraps bytes that are already US-ASCII with `CRLF` line endings only, as they are.
    pub fn from_ascii_str_unchecked(bytes: Vec<u8>) -> (r: SmtpString)
        requires
            is_ascii_bytes(bytes@),
            has_crlf_endings(bytes@),
        ensures
            r@ == bytes@,
    {
        SmtpString { bytes }
    }

    /// Returns the bytes held.
    pub fn as_inner(&self) -> (r: &Vec<u8>)
        ensures
            r@ == self@,
            is_ascii_bytes(r@),
            has_crlf_endings(r@),
    {
        proof {
            use_type_invariant(self);
        }
        &self.bytes
    }

    /// Returns the bytes held, giving up the string.
    pub fn into_bytes(self) -> (r: Vec<u8>)
        ensures
            r@ == self@,
            is_ascii_bytes(r@),
            has_crlf_endings(r@),
    {
        proof {
            use_type_invariant(&self);
        }
        self.bytes
    }

    /// Returns the bytes held, as a slice.
    pub fn as_bytes(&self) -> (r: &[u8])
        ensures
            r@ == self@,
            is_ascii_bytes(r@),
            has_crlf_endings(r@),
    {
        proof {
            use_type_invariant(self);
        }
        self.bytes.as_slice()
    }
}

/// The repaired form of a prefix is built from whole pieces: its line feeds follow carriage
/// returns, its carriage returns but the last are followed by line feeds, and a carriage return
/// at its end is the first half of a `CRLF` of the input.
proof fn lemma_prefix_shape(s: Seq<u8>, n: int)
    requires
        0 <= n <= s.len(),
    ensures
        ({
            let t = normalize_prefix(s, n);
            &&& forall|i: int|
                0 <= i < t.len() ==> (#[trigger] t[i] == LF ==> i > 0 && t[i - 1] == CR)
            &&& forall|i: int|
                0 <= i < t.len() - 1 ==> (#[trigger] t[i] == CR ==> t[i + 1] == LF)
            &&& n == 0 ==> t.len() == 0
            &&& n > 0 ==> t.len() > 0 && t.last() == repaired(s, n - 1).last()
            &&& n > 0 && t.last() == CR ==> n < s.len() && s[n] == LF && s[n - 1] == CR
        }),
    decreases n,
{
    if n > 0 {
        lemma_prefix_shape(s, n - 1);
        let t0 = normalize_prefix(s, n - 1);
        let e = repaired(s, n - 1);
        let t = normalize_prefix(s, n);
        assert(t == t0 + e);
        assert forall|i: int| 0 <= i < t.len() && #[trigger] t[i] == LF implies i > 0 && t[i - 1]
            == CR by {
            if i < t0.len() {
                assert(t[i] == t0[i]);
                if i > 0 {
                    assert(t[i - 1] == t0[i - 1]);
                }
            } else {
                if e.len() == 1 {
                    assert(t0.len() > 0);
                    assert(t[i - 1] == t0.last());
                } else {
                    assert(i == t0.len() + 1);
                }
            }
        }
        assert forall|i: int| 0 <= i < t.len() - 1 && #[trigger] t[i] == CR implies t[i + 1]
            == LF by {
            if i < t0.len() - 1 {
                assert(t[i] == t0[i]);
                assert(t[i + 1] == t0[i + 1]);
            } else if i == t0.len() - 1 {
                assert(t0.last() == CR);
                assert(t[i + 1] == e[0]);
            }
        }
    }
}

/// Every line feed of a normalized sequence directly follows a carriage return, and every
/// carriage return in it is directly followed by a line feed.
pub proof fn lemma_normalize_has_crlf_endings(s: Seq<u8>)
    ensures
        has_crlf_endings(normalize(s)),
{
    lemma_prefix_shape(s, s.len() as int);
}

/// Normalizing leaves a sequence whose line endings are all `CRLF` as it is.
pub proof fn lemma_normalize_keeps_crlf(s: Seq<u8>)
    requires
        has_crlf_endings(s),
    ensures
        normalize(s) == s,
{
    assert forall|n: int| 0 <= n <= s.len() implies #[trigger] normalize_prefix(s, n) == s.take(
        n,
    ) by {
        lemma_prefix_is_taken(s, n);
    }
    assert(s.take(s.len() as int) =~= s);
}

proof fn lemma_prefix_is_taken(s: Seq<u8>, n: int)
    requires
        has_crlf_endings(s),
        0 <= n <= s.len(),
    ensures
        normalize_prefix(s, n) == s.take(n),
    decreases n,
{
    if n > 0 {
        lemma_prefix_is_taken(s, n - 1);
        let i = n - 1;
        assert(repaired(s, i) =~= seq![s[i]]);
        assert(s.take(n) =~= s.take(i) + seq![s[i]]);
    }
}

/// Normalizing twice gives what normalizing once gives.
pub proof fn lemma_normalize_idempotent(s: Seq<u8>)
    ensures
        normalize(normalize(s)) == normalize(s),
{
    lemma_normalize_has_crlf_endings(s);
    lemma_normalize_keeps_crlf(normalize(s));
}

/// Normalizing only adds carriage returns and line feeds, so US-ASCII input stays US-ASCII.
pub proof fn lemma_normalize_keeps_ascii(s: Seq<u8>)
    requires
        is_ascii_bytes(s),
    ensures
        is_ascii_bytes(normalize(s)),
{
    lemma_prefix_keeps_ascii(s, s.len() as int);
}

proof fn lemma_prefix_keeps_ascii(s: Seq<u8>, n: int)
    requires
        is_ascii_bytes(s),
        0 <= n <= s.len(),
    ensures
        is_ascii_bytes(normalize_prefix(s, n)),
    decreases n,
{
    if n > 0 {
        lemma_prefix_keeps_ascii(s, n - 1);
        let t0 = normalize_prefix(s, n - 1);
        let e = repaired(s, n - 1);
        assert(is_ascii_byte(s[n - 1]));
        assert(is_ascii_bytes(e));
        assert forall|i: int| 0 <= i < t0.len() + e.len() implies is_ascii_byte(
            #[trigger] (t0 + e)[i],
        ) by {
            if i >= t0.len() {
                assert((t0 + e)[i] == e[i - t0.len()]);
            }
        }
    }
}

/// A repaired prefix is a prefix of every longer repaired prefix, so its length grows with it.
proof fn lemma_prefix_len_grows(s: Seq<u8>, i: int, j: int)
    requires
        0 <= i <= j <= s.len(),
    ensures
        normalize_prefix(s, i).len() <= normalize_prefix(s, j).len(),
        i <= normalize_prefix(s, i).len(),
    decreases j,
{
    if j > i {
        lemma_prefix_len_grows(s, i, j - 1);
    } else if i > 0 {
        lemma_prefix_len_grows(s, i - 1, i - 1);
    }
}

/// The capacity of a [`RawSmtpStr`], in bytes.
pub const MAX_LEN: usize = 150;

/// A string of fixed capacity, held inline, that is used as an [`SmtpString`] is: every byte is
/// US-ASCII and every line ending is `CRLF`.
#[derive(Debug)]
pub struct RawSmtpStr {
    buffer: [u8; MAX_LEN],
    len: usize,
}

impl View for RawSmtpStr {
    type V = Seq<u8>;

    closed spec fn view(&self) -> Seq<u8> {
        self.buffer@.take(self.len as int)
    }
}

impl RawSmtpStr {
    #[verifier::type_invariant]
    spec fn well_formed(self) -> bool {
        &&& self.len <= MAX_LEN
        &&& is_ascii_bytes(self.buffer@.take(self.len as int))
        &&& has_crlf_endings(self.buffer@.take(self.len as int))
    }

    /// Returns an empty string, its buffer filled with `'0'`.
    pub fn new_zeroed() -> (r: RawSmtpStr)
        ensures
            r@.len() == 0,
    {
        RawSmtpStr { buffer: [0x30u8; MAX_LEN], len: 0 }
    }

    /// Builds the string from a string of ASCII characters, repairing bare carriage returns and
    /// line feeds into `CRLF` without allocating.
    pub fn new(s: &str) -> (r: RawSmtpStr)
        requires
            is_ascii_bytes(s.spec_bytes()),
            normalize(s.spec_bytes()).len() <= MAX_LEN,
        ensures
            r@ == normalize(s.spec_bytes()),
    {
        RawSmtpStr::new_from_ascii(s.as_bytes())
    }

    /// Builds the string from US-ASCII bytes, repairing bare carriage returns and line feeds into
    /// `CRLF` without allocating.
    pub fn new_from_ascii(bytes: &[u8]) -> (r: RawSmtpStr)
        requires
            is_ascii_bytes(bytes@),
            normalize(bytes@).len() <= MAX_LEN,
        ensures
            r@ == normalize(bytes@),
    {
        let n = bytes.len();
        let mut buffer = [0x30u8; MAX_LEN];
        let mut len: usize = 0;
        let mut i: usize = 0;
        proof {
            lemma_prefix_len_grows(bytes@, n as int, n as int);
        }
        while i < n
            invariant
                n == bytes@.len(),
                0 <= i <= n,
                normalize(bytes@).len() <= MAX_LEN,
                len == normalize_prefix(bytes@, i as int).len(),
                buffer@.take(len as int) == normalize_prefix(bytes@, i as int),
            decreases n - i,
        {
            proof {
                lemma_prefix_len_grows(bytes@, i + 1, n as int);
                assert(normalize_prefix(bytes@, i + 1) == normalize_prefix(bytes@, i as int)
                    + repaired(bytes@, i as int));
            }
            let ghost before = buffer@;
            let c = bytes[i];
            if c == LF && !(i > 0 && bytes[i - 1] == CR) {
                buffer[len] = CR;
                buffer[len + 1] = LF;
                len += 2;
            } else if c == CR && !(i + 1 < n && bytes[i + 1] == LF) {
                buffer[len] = CR;
                buffer[len + 1] = LF;
                len += 2;
            } else {
                buffer[len] = c;
                len += 1;
            }
            assert(buffer@.take(len as int) =~= normalize_prefix(bytes@, i as int) + repaired(
                bytes@,
                i as int,
            ));
            i += 1;
        }
        proof {
            lemma_normalize_has_crlf_endings(bytes@);
            lemma_normalize_keeps_ascii(bytes@);
        }
        RawSmtpStr { buffer, len }
    }

    /// Returns the bytes held.
    pub fn as_bytes(&self) -> (r: &[u8])
        ensures
            r@ == self@,
            is_ascii_bytes(r@),
            has_crlf_endings(r@),
    {
        proof {
            use_type_invariant(self);
        }
        let s = self.buffer.as_slice();
        &s[0..self.len]
    }

    /// Returns the length of the string held.
    pub fn len(&self) -> (r: usize)
        ensures
            r == self@.len(),
    {
        proof {
            use_type_invariant(self);
        }
        self.len
    }

    /// Returns the capacity of the buffer.
    pub fn capacity(&self) -> (r: usize)
        ensures
            r == MAX_LEN,
    {
        MAX_LEN
    }

    /// Copies the string held into an [`SmtpString`].
    pub fn into_smtp_string(self) -> (r: SmtpString)
        ensures
            r@ == self@,
    {
        proof {
            use_type_invariant(&self);
        }
        let bytes = self.as_bytes();
        let mut out: Vec<u8> = Vec::new();
        let mut i: usize = 0;
        while i < bytes.len()
            invariant
                0 <= i <= bytes@.len(),
                out@ == bytes@.take(i as int),
            decreases bytes@.len() - i,
        {
            out.push(bytes[i]);
            i += 1;
            assert(out@ =~= bytes@.take(i as int));
        }
        assert(out@ =~= bytes@);
        SmtpString::from_ascii_str_unchecked(out)
    }
}

} // verus!
