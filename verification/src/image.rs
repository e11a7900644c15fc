//! Images: the bytes of a BIOS, disk, kernel, bootloader or other resource,
//! with their kind, name and origin, and their SHA-256 integrity check.
use vstd::prelude::*;
use sha2::Digest;
use crate::error::X86Error;

verus! {

/// What an image is used for.
#[derive(Clone, Copy, Debug, PartialEq, Eq, Structural)]
pub enum ImageKind {
    RawDisk,
    Iso9660,
    Bios,
    VgaBios,
    Kernel,
    Initrd,
    Bootloader,
    SavedState,
    Other,
}

/// The bytes of a resource, with its kind, its name and the path it was
/// read from, if any.
pub struct Image {
    kind: ImageKind,
    name: String,
    bytes: Vec<u8>,
    source: Option<String>,
}

/// What an `Image` holds.
pub struct ImageView {
    pub kind: ImageKind,
    pub name: Seq<char>,
    pub bytes: Seq<u8>,
    pub source: Option<Seq<char>>,
}

impl View for Image {
    type V = ImageView;

    closed spec fn view(&self) -> ImageView {
        ImageView {
            kind: self.kind,
            name: self.name@,
            bytes: self.bytes@,
            source: match self.source {
                Some(s) => Some(s@),
                None => None,
            },
        }
    }
}

/// The SHA-256 digest of `data`.
pub uninterp spec fn sha256_of(data: Seq<u8>) -> Seq<u8>;

/// Computes the SHA-256 digest of `data` with `sha2::Sha256::digest`. The
/// digest is named, not stated: it is 32 bytes and depends on `data` alone.
#[verifier::external_body]
fn sha256_digest(data: &[u8]) -> (d: Vec<u8>)
    ensures
        d@ == sha256_of(data@),
        d@.len() == 32,
{
    sha2::Sha256::digest(data).to_vec()
}

/// The lowercase hexadecimal digit for `n` (below 16).
pub open spec fn hex_digit(n: int) -> char {
    if n < 10 {
        (48 + n) as char
    } else {
        (87 + n) as char
    }
}

/// `data` in lowercase hexadecimal, two digits per byte, high digit first.
pub open spec fn hex_lower(data: Seq<u8>) -> Seq<char> {
    Seq::new(
        2 * data.len(),
        |i: int|
            if i % 2 == 0 {
                hex_digit(data[i / 2] as int / 16)
            } else {
                hex_digit(data[i / 2] as int % 16)
            },
    )
}

/// Encodes `data` with `hex::encode`: each byte as two lowercase
/// hexadecimal digits, high digit first (the crate's lowercase table
/// "0123456789abcdef").
#[verifier::external_body]
fn hex_encode(data: &[u8]) -> (s: String)
    ensures
        s@ == hex_lower(data@),
{
    hex::encode(data)
}

/// Whether `c` has the Unicode `White_Space` property.
pub open spec fn is_white_space(c: char) -> bool {
    let n = c as u32;
    ||| 9 <= n <= 13
    ||| n == 32
    ||| n == 0x85
    ||| n == 0xA0
    ||| n == 0x1680
    ||| 0x2000 <= n <= 0x200A
    ||| n == 0x2028
    ||| n == 0x2029
    ||| n == 0x202F
    ||| n == 0x205F
    ||| n == 0x3000
}

/// `s` without its leading white space.
pub open spec fn trim_start(s: Seq<char>) -> Seq<char>
    decreases s.len(),
{
    if s.len() > 0 && is_white_space(s[0]) {
        trim_start(s.drop_first())
    } else {
        s
    }
}

/// `s` without its trailing white space.
pub open spec fn trim_end(s: Seq<char>) -> Seq<char>
    decreases s.len(),
{
    if s.len() > 0 && is_white_space(s.last()) {
        trim_end(s.drop_last())
    } else {
        s
    }
}

/// `s` without leading and trailing white space.
pub open spec fn trim(s: Seq<char>) -> Seq<char> {
    trim_end(trim_start(s))
}

/// `c` with ASCII `A`..`Z` mapped to `a`..`z`.
pub open spec fn ascii_lower(c: char) -> char {
    if 'A' <= c && c <= 'Z' {
        ((c as u32) + 32) as char
    } else {
        c
    }
}

/// Whether `c` is white space.
pub(crate) fn white_space(c: char) -> (b: bool)
    ensures
        b == is_white_space(c),
{
    let n = c as u32;
    (9 <= n && n <= 13) || n == 32 || n == 0x85 || n == 0xA0 || n == 0x1680 || (0x2000 <= n && n <= 0x200A)
        || n == 0x2028 || n == 0x2029 || n == 0x202F || n == 0x205F || n == 0x3000
}

/// `s` without leading and trailing white space.
pub fn trim_str(s: &str) -> (t: &str)
    ensures
        t@ == trim(s@),
{
    let n = s.unicode_len();
    let mut i: usize = 0;
    assert(s@.subrange(0, n as int) =~= s@);
    while i < n && white_space(s.get_char(i))
        invariant
            i <= n,
            n == s@.len(),
            trim_start(s@) == trim_start(s@.subrange(i as int, n as int)),
        decreases n - i,
    {
        assert(s@.subrange(i as int, n as int).drop_first() =~= s@.subrange(i + 1, n as int));
        i = i + 1;
    }
    assert(trim_start(s@) == s@.subrange(i as int, n as int));
    let mut j: usize = n;
    while j > i && white_space(s.get_char(j - 1))
        invariant
            i <= j <= n,
            n == s@.len(),
            trim(s@) == trim_end(s@.subrange(i as int, j as int)),
        decreases j - i,
    {
        assert(s@.subrange(i as int, j as int).drop_last() =~= s@.subrange(i as int, j - 1));
        j = j - 1;
    }
    s.substring_char(i, j)
}

/// The lowercase letter for the ASCII capital `c`, as text.
fn lower_letter(c: char) -> (r: &'static str)
    requires
        'A' <= c <= 'Z',
    ensures
        r@ == seq![ascii_lower(c)],
{
    match c {
        'A' => {
            proof { reveal_strlit("a"); }
            "a"
        },
        'B' => {
            proof { reveal_strlit("b"); }
            "b"
        },
        'C' => {
            proof { reveal_strlit("c"); }
            "c"
        },
        'D' => {
            proof { reveal_strlit("d"); }
            "d"
        },
        'E' => {
            proof { reveal_strlit("e"); }
            "e"
        },
        'F' => {
            proof { reveal_strlit("f"); }
            "f"
        },
        'G' => {
            proof { reveal_strlit("g"); }
            "g"
        },
        'H' => {
            proof { reveal_strlit("h"); }
            "h"
        },
        'I' => {
            proof { reveal_strlit("i"); }
            "i"
        },
        'J' => {
            proof { reveal_strlit("j"); }
            "j"
        },
        'K' => {
            proof { reveal_strlit("k"); }
            "k"
        },
        'L' => {
            proof { reveal_strlit("l"); }
            "l"
        },
        'M' => {
            proof { reveal_strlit("m"); }
            "m"
        },
        'N' => {
            proof { reveal_strlit("n"); }
            "n"
        },
        'O' => {
            proof { reveal_strlit("o"); }
            "o"
        },
        'P' => {
            proof { reveal_strlit("p"); }
            "p"
        },
        'Q' => {
            proof { reveal_strlit("q"); }
            "q"
        },
        'R' => {
            proof { reveal_strlit("r"); }
            "r"
        },
        'S' => {
            proof { reveal_strlit("s"); }
            "s"
        },
        'T' => {
            proof { reveal_strlit("t"); }
            "t"
        },
        'U' => {
            proof { reveal_strlit("u"); }
            "u"
        },
        'V' => {
            proof { reveal_strlit("v"); }
            "v"
        },
        'W' => {
            proof { reveal_strlit("w"); }
            "w"
        },
        'X' => {
            proof { reveal_strlit("x"); }
            "x"
        },
        'Y' => {
            proof { reveal_strlit("y"); }
            "y"
        },
        _ => {
            proof { reveal_strlit("z"); }
            "z"
        },
    }
}

/// `s` with ASCII `A`..`Z` mapped to `a`..`z` and every other character kept.
pub fn ascii_lowercase(s: &str) -> (r: String)
    ensures
        r@ == s@.map_values(|c: char| ascii_lower(c)),
{
    let n = s.unicode_len();
    let mut r = String::new();
    let mut i: usize = 0;
    while i < n
        invariant
            i <= n,
            n == s@.len(),
            r@ == s@.subrange(0, i as int).map_values(|c: char| ascii_lower(c)),
        decreases n - i,
    {
        let c = s.get_char(i);
        if 'A' <= c && c <= 'Z' {
            r.append(lower_letter(c));
        } else {
            r.append(s.substring_char(i, i + 1));
        }
        assert(s@.subrange(0, i + 1).map_values(|c: char| ascii_lower(c)) =~= s@.subrange(0, i as int).map_values(
            |c: char| ascii_lower(c),
        ).push(ascii_lower(c)));
        i = i + 1;
    }
    assert(s@.subrange(0, n as int) =~= s@);
    r
}

/// The message of a failed integrity check.
pub open spec fn mismatch_message(name: Seq<char>, expected: Seq<char>, actual: Seq<char>) -> Seq<char> {
    "SHA-256 mismatch for "@ + name + ": expected "@ + expected + ", got "@ + actual
}

impl Image {
    /// An image of `bytes` named `name`, read from no path.
    pub fn from_bytes(kind: ImageKind, name: String, bytes: Vec<u8>) -> (i: Image)
        ensures
            i@ == (ImageView { kind, name: name@, bytes: bytes@, source: None }),
    {
        Image { kind, name, bytes, source: None }
    }

    /// An image of `bytes` named `name`, read from the path `source`.
    pub fn with_source(kind: ImageKind, name: String, bytes: Vec<u8>, source: String) -> (i: Image)
        ensures
            i@ == (ImageView { kind, name: name@, bytes: bytes@, source: Some(source@) }),
    {
        Image { kind, name, bytes, source: Some(source) }
    }

    /// What the image is used for.
    pub fn kind(&self) -> (k: ImageKind)
        ensures
            k == self@.kind,
    {
        self.kind
    }

    /// The image's name.
    pub fn name(&self) -> (n: &str)
        ensures
            n@ == self@.name,
    {
        self.name.as_str()
    }

    /// The image's bytes.
    pub fn bytes(&self) -> (b: &[u8])
        ensures
            b@ == self@.bytes,
    {
        self.bytes.as_slice()
    }

    /// The number of bytes.
    pub fn len(&self) -> (n: usize)
        ensures
            n == self@.bytes.len(),
    {
        self.bytes.len()
    }

    /// Whether the image has no bytes.
    pub fn is_empty(&self) -> (b: bool)
        ensures
            b == (self@.bytes.len() == 0),
    {
        self.bytes.len() == 0
    }

    /// The path the image was read from, if any.
    pub fn source(&self) -> (s: Option<&str>)
        ensures
            match self@.source {
                Some(p) => s matches Some(x) && x@ == p,
                None => s is None,
            },
    {
        match &self.source {
            Some(p) => Some(p.as_str()),
            None => None,
        }
    }

    /// The SHA-256 digest of the bytes, in lowercase hexadecimal.
    pub fn sha256(&self) -> (h: String)
        ensures
            h@ == hex_lower(sha256_of(self@.bytes)),
    {
        let d = sha256_digest(self.bytes.as_slice());
        hex_encode(d.as_slice())
    }

    /// Checks the bytes against the hexadecimal SHA-256 digest `expected`,
    /// which is compared without surrounding white space and in lowercase.
    pub fn verify_sha256(&self, expected: &str) -> (r: Result<(), X86Error>)
        ensures
            ({
                let e = trim(expected@).map_values(|c: char| ascii_lower(c));
                let a = hex_lower(sha256_of(self@.bytes));
                &&& (r is Ok <==> a == e)
                &&& (r is Err ==> (r matches Err(X86Error::InvalidImage(m)) && m@ == mismatch_message(self@.name, e, a)))
            }),
    {
        let actual = self.sha256();
        sha256_check(self.name.as_str(), expected, actual.as_str())
    }
}

/// Compares the digest `actual` of the image `name` with the hexadecimal
/// digest `expected`, taken without surrounding white space and in lowercase.
pub fn sha256_check(name: &str, expected: &str, actual: &str) -> (r: Result<(), X86Error>)
    ensures
        ({
            let e = trim(expected@).map_values(|c: char| ascii_lower(c));
            &&& (r is Ok <==> actual@ == e)
            &&& (r is Err ==> (r matches Err(X86Error::InvalidImage(m)) && m@ == mismatch_message(name@, e, actual@)))
        }),
{
    let expected = ascii_lowercase(trim_str(expected));
    let actual = String::from_str(actual);
    if actual != expected {
        let mut m = String::from_str("SHA-256 mismatch for ");
        m.append(name);
        m.append(": expected ");
        m.append(expected.as_str());
        m.append(", got ");
        m.append(actual.as_str());
        return Err(X86Error::InvalidImage(m));
    }
    Ok(())
}

/// An image passes the integrity check against its own digest: the
/// digest's text has no surrounding white space and no upper case, so
/// `verify_sha256` compares it with itself.
pub proof fn law_own_digest_verifies(data: Seq<u8>)
    ensures
        trim(hex_lower(data)).map_values(|c: char| ascii_lower(c)) == hex_lower(data),
{
    let h = hex_lower(data);
    assert forall|i: int| 0 <= i < h.len() implies !is_white_space(#[trigger] h[i]) && ascii_lower(h[i]) == h[i] by {
        let b = data[i / 2];
        assert(b as int / 16 < 16 && b as int % 16 < 16);
    }
    assert(trim_start(h) == h);
    assert(trim_end(h) == h);
    assert(h.map_values(|c: char| ascii_lower(c)) =~= h);
}

} // verus!
