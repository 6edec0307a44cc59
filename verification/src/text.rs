//! Text the server builds: decimal numbers, the canonical text form of a
//! UUID, cache keys and storage paths, and byte-string search.
use vstd::prelude::*;
use vstd::string::StringExecFns;

verus! {

/// Appends one character to a `String` (`String::push`).
///
/// Trusted: std documents that `push` appends the given `char` to the end of
/// the string; the contract says exactly that of the character view.
#[verifier::external_body]
fn string_push(s: &mut String, c: char)
    ensures
        final(s)@ == old(s)@.push(c),
{
    s.push(c);
}

/// The decimal digit character for `d` (`d < 10`).
pub open spec fn digit_char(d: nat) -> char {
    (48 + d) as char
}

/// Decimal digits of `n`, most significant first, without leading zeros
/// (`0` is written as a single `0`).
pub open spec fn decimal_text(n: nat) -> Seq<char>
    decreases n,
{
    if n < 10 {
        seq![digit_char(n)]
    } else {
        decimal_text(n / 10).push(digit_char(n % 10))
    }
}

/// Decimal text of a signed integer, with a leading `-` when negative.
pub open spec fn signed_decimal_text(n: int) -> Seq<char> {
    if n < 0 {
        seq!['-'] + decimal_text((-n) as nat)
    } else {
        decimal_text(n as nat)
    }
}

fn push_decimal(out: &mut String, n: u64)
    ensures
        final(out)@ == old(out)@ + decimal_text(n as nat),
    decreases n,
{
    if n >= 10 {
        push_decimal(out, n / 10);
    }
    let d: u32 = (n % 10) as u32;
    let c: char = if d == 0 { '0' } else if d == 1 { '1' } else if d == 2 { '2' } else if d == 3 {
        '3'
    } else if d == 4 { '4' } else if d == 5 { '5' } else if d == 6 { '6' } else if d == 7 {
        '7'
    } else if d == 8 { '8' } else { '9' };
    assert(c == digit_char(d as nat));
    string_push(out, c);
}

/// Appends the decimal text of `n` to `out`, as `format!("{}", n)` writes it.
pub fn push_signed_decimal(out: &mut String, n: i32)
    ensures
        final(out)@ == old(out)@ + signed_decimal_text(n as int),
{
    if n < 0 {
        string_push(out, '-');
        let m: u64 = ((-(n as i64)) as u64);
        push_decimal(out, m);
        assert(final(out)@ =~= old(out)@ + signed_decimal_text(n as int));
    } else {
        push_decimal(out, n as u64);
    }
}

/// Lower-case hexadecimal digit for `d` (`d < 16`).
pub open spec fn hex_char(d: nat) -> char {
    if d < 10 {
        (48 + d) as char
    } else {
        (87 + d) as char
    }
}

/// Two lower-case hexadecimal digits for each byte, high nibble first.
pub open spec fn hex_text(b: Seq<u8>) -> Seq<char>
    decreases b.len(),
{
    if b.len() == 0 {
        Seq::empty()
    } else {
        seq![hex_char((b[0] / 16) as nat), hex_char((b[0] % 16) as nat)] + hex_text(b.drop_first())
    }
}

/// Canonical text of a UUID given by its 16 bytes: lower-case hexadecimal
/// in groups of 8, 4, 4, 4 and 12 digits joined by `-`.
pub open spec fn uuid_text(b: Seq<u8>) -> Seq<char> {
    hex_text(b.subrange(0, 4)) + seq!['-'] + hex_text(b.subrange(4, 6)) + seq!['-'] + hex_text(
        b.subrange(6, 8),
    ) + seq!['-'] + hex_text(b.subrange(8, 10)) + seq!['-'] + hex_text(b.subrange(10, 16))
}

/// Canonical text of the UUID with bytes `bytes` (`uuid::Uuid`'s `Display`).
///
/// Trusted: the uuid crate writes a UUID as the lower-case hyphenated form
/// (`67e55044-10b1-426f-9247-bb680e5fe0c8`), two hexadecimal digits per
/// byte in order; the contract states that form.
#[verifier::external_body]
pub(crate) fn uuid_to_text(bytes: &[u8; 16]) -> (s: String)
    ensures
        s@ == uuid_text(bytes@),
{
    uuid::Uuid::from_bytes(*bytes).to_string()
}

/// `h` holds `n` as a contiguous run of bytes.
pub open spec fn has_infix(h: Seq<u8>, n: Seq<u8>) -> bool {
    exists|i: int| 0 <= i && i + n.len() <= h.len() && #[trigger] h.subrange(i, i + n.len()) == n
}

/// Whether `needle` occurs in `hay` as a contiguous run of bytes.
pub fn contains_bytes(hay: &[u8], needle: &[u8]) -> (r: bool)
    ensures
        r == has_infix(hay@, needle@),
{
    if needle.len() > hay.len() {
        return false;
    }
    let last: usize = hay.len() - needle.len();
    let mut i: usize = 0;
    while i <= last
        invariant
            last + needle.len() == hay.len(),
            forall|k: int| 0 <= k < i ==> #[trigger] hay@.subrange(k, k + needle@.len()) != needle@,
        decreases last + 1 - i,
    {
        let mut j: usize = 0;
        let mut same: bool = true;
        while j < needle.len()
            invariant
                i <= last,
                last + needle.len() == hay.len(),
                j <= needle@.len(),
                same == (forall|t: int| 0 <= t < j ==> hay@[i + t] == needle@[t]),
            decreases needle@.len() - j,
        {
            if hay[i + j] != needle[j] {
                same = false;
            }
            j = j + 1;
        }
        if same {
            assert(hay@.subrange(i as int, i + needle@.len()) =~= needle@);
            return true;
        }
        assert(hay@.subrange(i as int, i + needle@.len()) != needle@) by {
            let t = choose|t: int| 0 <= t < needle@.len() && hay@[i + t] != needle@[t];
            assert(hay@.subrange(i as int, i + needle@.len())[t] == hay@[i + t]);
        }
        if i == last {
            return false;
        }
        i = i + 1;
    }
    false
}

/// `bice:hs:`, the prefix of the cache key of a handshake.
pub open spec fn channel_key_prefix() -> Seq<char> {
    seq!['b', 'i', 'c', 'e', ':', 'h', 's', ':']
}

/// `storage/`, the directory that holds one directory per user.
pub open spec fn storage_prefix() -> Seq<char> {
    seq!['s', 't', 'o', 'r', 'a', 'g', 'e', '/']
}

/// `.bin`, the extension of stored database files.
pub open spec fn bin_suffix() -> Seq<char> {
    seq!['.', 'b', 'i', 'n']
}

/// `/upload_`, the prefix of a file name while an upload is in flight.
pub open spec fn upload_infix() -> Seq<char> {
    seq!['/', 'u', 'p', 'l', 'o', 'a', 'd', '_']
}

/// Cache key under which the handshake of session `token` is kept.
pub open spec fn channel_key_text(token: Seq<u8>) -> Seq<char> {
    channel_key_prefix() + uuid_text(token)
}

/// Directory of the files of user `uid`.
pub open spec fn user_dir_text(uid: Seq<u8>) -> Seq<char> {
    storage_prefix() + uuid_text(uid)
}

/// Path of version `version` of the database of user `uid`.
pub open spec fn version_path_text(uid: Seq<u8>, version: int) -> Seq<char> {
    user_dir_text(uid) + seq!['/'] + signed_decimal_text(version) + bin_suffix()
}

/// Path under which session `token` uploads a file for user `uid`.
pub open spec fn upload_path_text(uid: Seq<u8>, token: Seq<u8>) -> Seq<char> {
    user_dir_text(uid) + upload_infix() + uuid_text(token) + bin_suffix()
}

/// The cache key of the handshake of session `token`.
pub fn channel_key(token: &[u8; 16]) -> (k: String)
    ensures
        k@ == channel_key_text(token@),
{
    let mut k = String::from_str("bice:hs:");
    proof {
        reveal_strlit("bice:hs:");
    }
    let id = uuid_to_text(token);
    k.append(id.as_str());
    k
}

/// The directory of the files of user `uid`.
pub fn user_dir(uid: &[u8; 16]) -> (d: String)
    ensures
        d@ == user_dir_text(uid@),
{
    let mut d = String::from_str("storage/");
    proof {
        reveal_strlit("storage/");
    }
    let id = uuid_to_text(uid);
    d.append(id.as_str());
    d
}

/// The path of version `version` of the database of user `uid`.
pub fn version_path(uid: &[u8; 16], version: i32) -> (p: String)
    ensures
        p@ == version_path_text(uid@, version as int),
{
    let mut p = user_dir(uid);
    string_push(&mut p, '/');
    push_signed_decimal(&mut p, version);
    p.append(".bin");
    proof {
        reveal_strlit(".bin");
    }
    p
}

/// The path under which session `token` uploads a file for user `uid`.
pub fn upload_path(uid: &[u8; 16], token: &[u8; 16]) -> (p: String)
    ensures
        p@ == upload_path_text(uid@, token@),
{
    let mut p = user_dir(uid);
    p.append("/upload_");
    proof {
        reveal_strlit("/upload_");
    }
    let id = uuid_to_text(token);
    p.append(id.as_str());
    p.append(".bin");
    proof {
        reveal_strlit(".bin");
    }
    p
}

proof fn lemma_digit_char(d: nat)
    requires
        d < 10,
    ensures
        digit_char(d) as int == 48 + d,
{
}

proof fn lemma_decimal_text_shape(n: nat)
    ensures
        decimal_text(n).len() >= 1,
        n >= 10 ==> decimal_text(n).len() >= 2,
        48 <= decimal_text(n)[0] as int <= 57,
    decreases n,
{
    if n < 10 {
        lemma_digit_char(n);
    } else {
        lemma_decimal_text_shape(n / 10);
        lemma_digit_char(n % 10);
        assert(decimal_text(n)[0] == decimal_text(n / 10)[0]);
    }
}

proof fn lemma_decimal_text_injective(a: nat, b: nat)
    requires
        decimal_text(a) == decimal_text(b),
    ensures
        a == b,
    decreases a + b,
{
    lemma_decimal_text_shape(a);
    lemma_decimal_text_shape(b);
    if a < 10 && b < 10 {
        lemma_digit_char(a);
        lemma_digit_char(b);
        assert(decimal_text(a)[0] == decimal_text(b)[0]);
    } else if a >= 10 && b >= 10 {
        let ta = decimal_text(a);
        let tb = decimal_text(b);
        lemma_digit_char(a % 10);
        lemma_digit_char(b % 10);
        assert(ta.last() == tb.last());
        assert(ta.drop_last() =~= decimal_text(a / 10));
        assert(tb.drop_last() =~= decimal_text(b / 10));
        lemma_decimal_text_injective(a / 10, b / 10);
    } else {
        assert(decimal_text(a).len() == decimal_text(b).len());
    }
}

/// Distinct integers are written as distinct decimal texts.
proof fn lemma_signed_decimal_injective(a: int, b: int)
    requires
        signed_decimal_text(a) == signed_decimal_text(b),
    ensures
        a == b,
{
    lemma_decimal_text_shape((-a) as nat);
    lemma_decimal_text_shape((-b) as nat);
    lemma_decimal_text_shape(a as nat);
    lemma_decimal_text_shape(b as nat);
    let ta = signed_decimal_text(a);
    let tb = signed_decimal_text(b);
    if a < 0 && b < 0 {
        assert(ta.drop_first() =~= decimal_text((-a) as nat));
        assert(tb.drop_first() =~= decimal_text((-b) as nat));
        lemma_decimal_text_injective((-a) as nat, (-b) as nat);
    } else if a >= 0 && b >= 0 {
        lemma_decimal_text_injective(a as nat, b as nat);
    } else {
        assert(ta[0] == tb[0]);
        assert(('-' as int) == 45);
    }
}

proof fn lemma_hex_text_len(b: Seq<u8>)
    ensures
        hex_text(b).len() == 2 * b.len(),
    decreases b.len(),
{
    if b.len() > 0 {
        lemma_hex_text_len(b.drop_first());
    }
}

/// The text of a UUID has 36 characters.
pub proof fn lemma_uuid_text_len(b: Seq<u8>)
    requires
        b.len() == 16,
    ensures
        uuid_text(b).len() == 36,
{
    lemma_hex_text_len(b.subrange(0, 4));
    lemma_hex_text_len(b.subrange(4, 6));
    lemma_hex_text_len(b.subrange(6, 8));
    lemma_hex_text_len(b.subrange(8, 10));
    lemma_hex_text_len(b.subrange(10, 16));
}

/// Each stored version has a file of its own: distinct version numbers of a
/// user give distinct paths.
pub proof fn version_paths_distinct(uid: Seq<u8>, v1: int, v2: int)
    requires
        v1 != v2,
    ensures
        version_path_text(uid, v1) != version_path_text(uid, v2),
{
    let pre = user_dir_text(uid) + seq!['/'];
    let p1 = version_path_text(uid, v1);
    let p2 = version_path_text(uid, v2);
    if p1 == p2 {
        assert(p1 =~= pre + signed_decimal_text(v1) + bin_suffix());
        assert(p2 =~= pre + signed_decimal_text(v2) + bin_suffix());
        let t1 = signed_decimal_text(v1);
        let t2 = signed_decimal_text(v2);
        assert(p1.len() == p2.len());
        assert(t1.len() == t2.len());
        assert(t1 =~= p1.subrange(pre.len() as int, (pre.len() + t1.len()) as int));
        assert(t2 =~= p2.subrange(pre.len() as int, (pre.len() + t2.len()) as int));
        lemma_signed_decimal_injective(v1, v2);
    }
}

/// An upload in flight never takes the path of a stored version.
pub proof fn upload_path_not_version_path(uid: Seq<u8>, token: Seq<u8>, version: int)
    requires
        uid.len() == 16,
    ensures
        upload_path_text(uid, token) != version_path_text(uid, version),
{
    lemma_uuid_text_len(uid);
    let dir = user_dir_text(uid);
    assert(dir.len() == 44);
    let up = upload_path_text(uid, token);
    let vp = version_path_text(uid, version);
    assert(up[45] == 'u');
    let t = signed_decimal_text(version);
    assert(vp[45] == t[0]);
    if version < 0 {
        assert(t[0] == '-');
    } else {
        lemma_decimal_text_shape(version as nat);
    }
    assert(('u' as int) == 117);
    assert(('-' as int) == 45);
    assert(up[45] != vp[45]);
}

proof fn lemma_hex_char_injective(a: nat, b: nat)
    requires
        a < 16,
        b < 16,
        hex_char(a) == hex_char(b),
    ensures
        a == b,
{
    if a < 10 {
        assert(hex_char(a) as int == 48 + a);
    } else {
        assert(hex_char(a) as int == 87 + a);
    }
    if b < 10 {
        assert(hex_char(b) as int == 48 + b);
    } else {
        assert(hex_char(b) as int == 87 + b);
    }
}

proof fn lemma_hex_text_injective(a: Seq<u8>, b: Seq<u8>)
    requires
        a.len() == b.len(),
        hex_text(a) == hex_text(b),
    ensures
        a == b,
    decreases a.len(),
{
    if a.len() > 0 {
        let ha = hex_text(a);
        let hb = hex_text(b);
        assert(ha[0] == hb[0]);
        assert(ha[1] == hb[1]);
        lemma_hex_char_injective((a[0] / 16) as nat, (b[0] / 16) as nat);
        lemma_hex_char_injective((a[0] % 16) as nat, (b[0] % 16) as nat);
        assert(a[0] == b[0]);
        assert(ha.subrange(2, ha.len() as int) =~= hex_text(a.drop_first()));
        assert(hb.subrange(2, hb.len() as int) =~= hex_text(b.drop_first()));
        lemma_hex_text_injective(a.drop_first(), b.drop_first());
        assert(a =~= seq![a[0]] + a.drop_first());
        assert(b =~= seq![b[0]] + b.drop_first());
    } else {
        assert(a =~= b);
    }
}

proof fn lemma_uuid_text_injective(a: Seq<u8>, b: Seq<u8>)
    requires
        a.len() == 16,
        b.len() == 16,
        uuid_text(a) == uuid_text(b),
    ensures
        a == b,
{
    lemma_hex_text_len(a.subrange(0, 4));
    lemma_hex_text_len(a.subrange(4, 6));
    lemma_hex_text_len(a.subrange(6, 8));
    lemma_hex_text_len(a.subrange(8, 10));
    lemma_hex_text_len(a.subrange(10, 16));
    lemma_hex_text_len(b.subrange(0, 4));
    lemma_hex_text_len(b.subrange(4, 6));
    lemma_hex_text_len(b.subrange(6, 8));
    lemma_hex_text_len(b.subrange(8, 10));
    lemma_hex_text_len(b.subrange(10, 16));
    let ta = uuid_text(a);
    let tb = uuid_text(b);
    assert(ta.subrange(0, 8) =~= hex_text(a.subrange(0, 4)));
    assert(tb.subrange(0, 8) =~= hex_text(b.subrange(0, 4)));
    assert(ta.subrange(9, 13) =~= hex_text(a.subrange(4, 6)));
    assert(tb.subrange(9, 13) =~= hex_text(b.subrange(4, 6)));
    assert(ta.subrange(14, 18) =~= hex_text(a.subrange(6, 8)));
    assert(tb.subrange(14, 18) =~= hex_text(b.subrange(6, 8)));
    assert(ta.subrange(19, 23) =~= hex_text(a.subrange(8, 10)));
    assert(tb.subrange(19, 23) =~= hex_text(b.subrange(8, 10)));
    assert(ta.subrange(24, 36) =~= hex_text(a.subrange(10, 16)));
    assert(tb.subrange(24, 36) =~= hex_text(b.subrange(10, 16)));
    lemma_hex_text_injective(a.subrange(0, 4), b.subrange(0, 4));
    lemma_hex_text_injective(a.subrange(4, 6), b.subrange(4, 6));
    lemma_hex_text_injective(a.subrange(6, 8), b.subrange(6, 8));
    lemma_hex_text_injective(a.subrange(8, 10), b.subrange(8, 10));
    lemma_hex_text_injective(a.subrange(10, 16), b.subrange(10, 16));
    assert forall|i: int| 0 <= i < 16 implies a[i] == b[i] by {
        if i < 4 {
            assert(a[i] == a.subrange(0, 4)[i] && b[i] == b.subrange(0, 4)[i]);
        } else if i < 6 {
            assert(a[i] == a.subrange(4, 6)[i - 4] && b[i] == b.subrange(4, 6)[i - 4]);
        } else if i < 8 {
            assert(a[i] == a.subrange(6, 8)[i - 6] && b[i] == b.subrange(6, 8)[i - 6]);
        } else if i < 10 {
            assert(a[i] == a.subrange(8, 10)[i - 8] && b[i] == b.subrange(8, 10)[i - 8]);
        } else {
            assert(a[i] == a.subrange(10, 16)[i - 10] && b[i] == b.subrange(10, 16)[i - 10]);
        }
    }
    assert(a =~= b);
}

/// Each session's handshake is kept under a cache key of its own: distinct
/// session tokens give distinct keys.
pub proof fn channel_keys_distinct(t1: Seq<u8>, t2: Seq<u8>)
    requires
        t1.len() == 16,
        t2.len() == 16,
        t1 != t2,
    ensures
        channel_key_text(t1) != channel_key_text(t2),
{
    if channel_key_text(t1) == channel_key_text(t2) {
        lemma_uuid_text_len(t1);
        lemma_uuid_text_len(t2);
        assert(channel_key_text(t1).subrange(8, 44) =~= uuid_text(t1));
        assert(channel_key_text(t2).subrange(8, 44) =~= uuid_text(t2));
        lemma_uuid_text_injective(t1, t2);
    }
}

} // verus!
