use vstd::prelude::*;
use vstd::string::*;
use vstd::utf8::*;

verus! {

/// What `str::to_lowercase` makes of a text.
pub uninterp spec fn lower_of(s: Seq<char>) -> Seq<char>;

/// Relies on `str::to_lowercase`: the lower-case form depends on the text alone.
#[verifier::external_body]
pub(crate) fn lowercase(s: &str) -> (r: String)
    ensures
        r@ == lower_of(s@),
{
    s.to_lowercase()
}

/// The filler that pads a text on the left.
pub const FILLER: char = ' ';

/// `n` fillers.
pub open spec fn fillers(n: nat) -> Seq<char> {
    Seq::new(n, |i: int| FILLER)
}

/// `s` preceded by as many fillers as make its UTF-8 form `len` bytes long;
/// `s` itself when it is that long already.
pub open spec fn padded(s: Seq<char>, len: nat) -> Seq<char> {
    let n = encode_utf8(s).len();
    if n < len {
        fillers((len - n) as nat) + s
    } else {
        s
    }
}

/// Bytes `b` preceded by as many filler bytes as make them `len` bytes long;
/// `b` itself when it is that long already.
pub open spec fn padded_bytes(b: Seq<u8>, len: nat) -> Seq<u8> {
    if b.len() < len {
        Seq::new((len - b.len()) as nat, |i: int| 0x20u8) + b
    } else {
        b
    }
}

/// A text with each space replaced by an underscore.
pub open spec fn underscored(s: Seq<char>) -> Seq<char> {
    s.map_values(|c: char| if c == ' ' { '_' } else { c })
}

/// The UTF-8 form of a concatenation is the concatenation of the forms.
pub proof fn lemma_encode_concat(a: Seq<char>, b: Seq<char>)
    ensures
        encode_utf8(a + b) == encode_utf8(a) + encode_utf8(b),
    decreases a.len(),
{
    if a.len() == 0 {
        assert(a + b =~= b);
        assert(encode_utf8(a) =~= Seq::<u8>::empty());
        assert(encode_utf8(a) + encode_utf8(b) =~= encode_utf8(b));
    } else {
        assert((a + b).drop_first() =~= a.drop_first() + b);
        assert((a + b)[0] == a[0]);
        lemma_encode_concat(a.drop_first(), b);
        assert(encode_utf8(a + b) =~= encode_utf8(a) + encode_utf8(b));
    }
}

/// Fillers are encoded as one byte each.
pub proof fn lemma_encode_fillers(n: nat)
    ensures
        encode_utf8(fillers(n)) == Seq::new(n, |i: int| 0x20u8),
    decreases n,
{
    if n == 0 {
        assert(encode_utf8(fillers(n)) =~= Seq::new(n, |i: int| 0x20u8));
    } else {
        let f = fillers(n);
        assert(f.drop_first() =~= fillers((n - 1) as nat));
        lemma_encode_fillers((n - 1) as nat);
        assert(f[0] == ' ');
        assert((' ' as u32) == 32u32);
        assert((32u32 & 0x7Fu32) == 32u32) by (bit_vector);
        assert(encode_scalar(32u32) =~= seq![0x20u8]);
        assert(encode_utf8(f) =~= Seq::new(n, |i: int| 0x20u8));
    }
}

/// Padding a text pads its UTF-8 form.
pub proof fn lemma_padded_bytes(s: Seq<char>, len: nat)
    ensures
        encode_utf8(padded(s, len)) == padded_bytes(encode_utf8(s), len),
{
    let n = encode_utf8(s).len();
    if n < len {
        lemma_encode_concat(fillers((len - n) as nat), s);
        lemma_encode_fillers((len - n) as nat);
    }
}

/// Whether two texts hold the same characters.
pub fn same_text(a: &str, b: &str) -> (r: bool)
    ensures
        r == (a@ == b@),
{
    let n = a.unicode_len();
    let m = b.unicode_len();
    if n != m {
        return false;
    }
    let mut i: usize = 0;
    while i < n
        invariant
            n == a@.len(),
            m == b@.len(),
            n == m,
            i <= n,
            forall|j: int| 0 <= j < i ==> a@[j] == b@[j],
        decreases n - i,
    {
        if a.get_char(i) != b.get_char(i) {
            return false;
        }
        i += 1;
    }
    assert(a@ =~= b@);
    true
}

/// Pads `pin` on the left with spaces until its UTF-8 form is `len` bytes
/// long; a text that is that long already comes back unchanged.
pub fn left_pad(pin: &String, len: usize) -> (r: String)
    ensures
        r@ == padded(pin@, len as nat),
{
    let n = pin.as_str().as_bytes().len();
    if n < len {
        let mut pad = String::new();
        let mut i: usize = 0;
        while i < len - n
            invariant
                n == encode_utf8(pin@).len(),
                n < len,
                i <= len - n,
                pad@ == fillers(i as nat),
            decreases len - n - i,
        {
            proof {
                reveal_strlit(" ");
            }
            pad.append(" ");
            assert(pad@ =~= fillers((i + 1) as nat));
            i += 1;
        }
        pad.append(pin.as_str());
        return pad;
    }
    pin.clone()
}

/// Replaces each space of `s` by an underscore.
pub fn underscore_spaces(s: &str) -> (r: String)
    ensures
        r@ == underscored(s@),
{
    let n = s.unicode_len();
    let mut r = String::new();
    let mut i: usize = 0;
    while i < n
        invariant
            n == s@.len(),
            i <= n,
            r@ == underscored(s@.subrange(0, i as int)),
        decreases n - i,
    {
        proof {
            reveal_strlit("_");
        }
        let c = s.get_char(i);
        if c == ' ' {
            r.append("_");
        } else {
            r.append(s.substring_char(i, i + 1));
        }
        assert(s@.subrange(0, i + 1) =~= s@.subrange(0, i as int).push(c));
        assert(r@ =~= underscored(s@.subrange(0, i + 1)));
        i += 1;
    }
    assert(s@.subrange(0, n as int) =~= s@);
    r
}

/// The file name under which a wallet is stored: its alias in lower case,
/// with each space replaced by an underscore.
pub fn wallet_file_name(alias: &str) -> (r: String)
    ensures
        r@ == underscored(lower_of(alias@)),
{
    let lower = lowercase(alias);
    underscore_spaces(lower.as_str())
}

} // verus!
