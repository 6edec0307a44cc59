//! The binary layout of the records the server keeps in its cache and of
//! the payloads it seals for the client. It is the layout the postcard
//! format gives these records (unsigned LEB128 varints for lengths and
//! counts, zig-zag varints for signed integers, raw bytes otherwise), framed
//! and checked here byte by byte; lengths are read as on a 64-bit target (at
//! most ten varint bytes).
use vstd::prelude::*;

verus! {

/// `128` raised to `i`.
pub open spec fn pow128(i: nat) -> nat
    decreases i,
{
    if i == 0 {
        1
    } else {
        128 * pow128((i - 1) as nat)
    }
}

/// Canonical varint of `n`: seven bits per byte, least significant group
/// first, the high bit set on every byte but the last.
pub open spec fn varint_encode(n: nat) -> Seq<u8>
    decreases n,
{
    if n < 128 {
        seq![n as u8]
    } else {
        seq![(n % 128 + 128) as u8] + varint_encode(n / 128)
    }
}

/// Reading a varint whose byte `i` is next: the value contributed from byte
/// `i` on (weighted from that byte), and the position just after the last
/// byte. At most ten bytes are read, and a tenth byte may only hold 0 or 1,
/// so every value that is read fits in 64 bits.
pub open spec fn varint_tail(b: Seq<u8>, i: nat) -> Option<(nat, nat)>
    decreases 10 - i,
{
    if i >= 10 || i >= b.len() {
        None
    } else if b[i as int] < 128 {
        if i == 9 && b[i as int] > 1 {
            None
        } else {
            Some((b[i as int] as nat, i + 1))
        }
    } else {
        match varint_tail(b, i + 1) {
            Some((v, e)) => Some(((b[i as int] - 128) as nat + 128 * v, e)),
            None => None,
        }
    }
}

/// The varint at the start of `b`: its value and how many bytes it takes,
/// or `None` where `b` does not start with one.
pub open spec fn varint_decode(b: Seq<u8>) -> Option<(nat, nat)> {
    varint_tail(b, 0)
}

proof fn lemma_pow128_step(i: nat)
    ensures
        pow128(i + 1) == 128 * pow128(i),
{
}

proof fn lemma_pow128_values()
    ensures
        pow128(8) == 0x100_0000_0000_0000,
        pow128(9) == 0x8000_0000_0000_0000,
{
    reveal_with_fuel(pow128, 10);
}

proof fn lemma_pow128_mono(i: nat, j: nat)
    requires
        i <= j,
    ensures
        pow128(i) <= pow128(j),
    decreases j - i,
{
    if i < j {
        lemma_pow128_mono(i, (j - 1) as nat);
        lemma_pow128_step((j - 1) as nat);
    }
}

/// Appends the varint of `n` to `out`.
pub fn push_varint(out: &mut Vec<u8>, n: u64)
    ensures
        final(out)@ == old(out)@ + varint_encode(n as nat),
{
    let mut v: u64 = n;
    loop
        invariant
            out@ + varint_encode(v as nat) == old(out)@ + varint_encode(n as nat),
        decreases v,
    {
        if v < 128 {
            out.push(v as u8);
            return;
        }
        let byte: u8 = (v % 128 + 128) as u8;
        out.push(byte);
        proof {
            assert(out@ + varint_encode((v / 128) as nat) =~= old(out)@ + varint_encode(n as nat)
                ) by {
                assert(varint_encode(v as nat) == seq![byte] + varint_encode((v / 128) as nat));
            }
        }
        v = v / 128;
    }
}

/// Reads the varint that starts at `start` in `b`: its value and the
/// position just after it, or `None` where none can be read there.
pub fn read_varint(b: &[u8], start: usize) -> (res: Option<(u64, usize)>)
    requires
        start <= b@.len(),
    ensures
        match varint_decode(b@.skip(start as int)) {
            Some((v, k)) => v < 0x1_0000_0000_0000_0000 && start + k <= b@.len() && res == Some(
                (v as u64, (start + k) as usize),
            ),
            None => res is None,
        },
        res matches Some((v, e)) ==> start < e <= b@.len(),
{
    let ghost s = b@.skip(start as int);
    let mut out: u64 = 0;
    let mut mult: u64 = 1;
    let mut i: usize = 0;
    while i < 10
        invariant
            start <= b@.len(),
            s == b@.skip(start as int),
            i <= 9 || i == 10,
            i < 10 ==> mult as nat == pow128(i as nat),
            i < 10 ==> out < mult,
            i == 10 ==> varint_tail(s, 10) is None,
            match varint_tail(s, i as nat) {
                Some((v, e)) => varint_tail(s, 0) == Some(((out as nat + mult as nat * v) as nat, e)),
                None => varint_tail(s, 0) is None,
            },
        decreases 10 - i,
    {
        if i >= b.len() - start {
            return None;
        }
        let val: u8 = b[start + i];
        assert(s[i as int] == val);
        if val < 128 {
            if i == 9 && val > 1 {
                return None;
            }
            proof {
                lemma_pow128_values();
                lemma_pow128_mono(i as nat, 9);
                if i < 9 {
                    lemma_pow128_mono(i as nat, 8);
                    assert(out + val as nat * mult <= 0xFFFF_FFFF_FFFF_FFFF) by (nonlinear_arith)
                        requires
                            out < mult,
                            mult <= 0x100_0000_0000_0000,
                            val < 128,
                    ;
                } else {
                    assert(out + val as nat * mult <= 0xFFFF_FFFF_FFFF_FFFF) by (nonlinear_arith)
                        requires
                            out < mult,
                            mult == 0x8000_0000_0000_0000,
                            val <= 1,
                    ;
                }
            }
            let value: u64 = out + (val as u64) * mult;
            proof {
                assert(varint_tail(s, i as nat) == Some((val as nat, (i + 1) as nat)));
                assert(value as nat == out as nat + mult as nat * val as nat) by (nonlinear_arith)
                    requires
                        value == out + val as nat * mult,
                ;
            }
            return Some((value, start + i + 1));
        }
        if i == 9 {
            proof {
                assert(varint_tail(s, 10) is None);
            }
            return None;
        }
        let carry: u64 = (val - 128) as u64;
        proof {
            lemma_pow128_values();
            lemma_pow128_mono(i as nat, 8);
            lemma_pow128_step(i as nat);
            assert(out + carry * mult < mult * 128 && mult * 128 <= 0x8000_0000_0000_0000)
                by (nonlinear_arith)
                requires
                    out < mult,
                    mult <= 0x100_0000_0000_0000,
                    carry < 128,
            ;
            match varint_tail(s, (i + 1) as nat) {
                Some((v, e)) => {
                    assert(varint_tail(s, i as nat) == Some(((carry as nat + 128 * v) as nat, e)));
                    assert(out as nat + mult as nat * (carry as nat + 128 * v) == (out + carry * mult)
                        as nat + (mult * 128) as nat * v) by (nonlinear_arith);
                },
                None => {},
            }
        }
        out = out + carry * mult;
        mult = mult * 128;
        i = i + 1;
    }
    None
}

proof fn lemma_varint_tail_of_encoding(b: Seq<u8>, k: nat, n: nat)
    requires
        k <= 9,
        n * pow128(k) < 0x1_0000_0000_0000_0000,
        k + varint_encode(n).len() <= b.len(),
        b.subrange(k as int, (k + varint_encode(n).len()) as int) == varint_encode(n),
    ensures
        varint_tail(b, k) == Some((n, k + varint_encode(n).len())),
    decreases n,
{
    let enc = varint_encode(n);
    assert(b[k as int] == b.subrange(k as int, (k + enc.len()) as int)[0]);
    if n < 128 {
        if k == 9 {
            lemma_pow128_values();
            assert(n <= 1) by (nonlinear_arith)
                requires
                    n * 0x8000_0000_0000_0000 < 0x1_0000_0000_0000_0000int,
            ;
        }
    } else {
        let rest = varint_encode(n / 128);
        assert(enc == seq![(n % 128 + 128) as u8] + rest);
        if k == 9 {
            lemma_pow128_values();
            assert(false) by (nonlinear_arith)
                requires
                    n * 0x8000_0000_0000_0000 < 0x1_0000_0000_0000_0000int,
                    n >= 128,
            ;
        }
        lemma_pow128_step(k);
        assert((n / 128) * pow128(k + 1) < 0x1_0000_0000_0000_0000) by (nonlinear_arith)
            requires
                n * pow128(k) < 0x1_0000_0000_0000_0000int,
                pow128(k + 1) == 128 * pow128(k),
        ;
        assert(b.subrange((k + 1) as int, (k + 1 + rest.len()) as int) =~= rest) by {
            assert forall|j: int| 0 <= j < rest.len() implies b.subrange(
                (k + 1) as int,
                (k + 1 + rest.len()) as int,
            )[j] == rest[j] by {
                assert(b.subrange(k as int, (k + enc.len()) as int)[j + 1] == enc[j + 1]);
            }
        }
        lemma_varint_tail_of_encoding(b, k + 1, n / 128);
    }
}

/// Reading back a varint: a varint written for any value that fits in 64
/// bits is read back as that value, whatever bytes follow it.
pub proof fn varint_roundtrip(n: nat, rest: Seq<u8>)
    requires
        n < 0x1_0000_0000_0000_0000,
    ensures
        varint_decode(varint_encode(n) + rest) == Some((n, varint_encode(n).len())),
{
    let b = varint_encode(n) + rest;
    assert(b.subrange(0, varint_encode(n).len() as int) =~= varint_encode(n));
    assert(pow128(0) == 1);
    assert(n * pow128(0) == n);
    lemma_varint_tail_of_encoding(b, 0, n);
}

/// Zig-zag code of a signed integer: `0, -1, 1, -2, 2, ...` become
/// `0, 1, 2, 3, 4, ...`.
pub open spec fn zigzag(n: int) -> nat {
    if n >= 0 {
        (2 * n) as nat
    } else {
        (-2 * n - 1) as nat
    }
}

/// Zig-zag code of an `i32`.
pub fn zigzag_i32(n: i32) -> (z: u32)
    ensures
        z as nat == zigzag(n as int),
{
    if n >= 0 {
        (n as u32) * 2
    } else {
        let m: i32 = -(n + 1);
        (m as u32) * 2 + 1
    }
}

/// Zig-zag code of an `i64`.
pub fn zigzag_i64(n: i64) -> (z: u64)
    ensures
        z as nat == zigzag(n as int),
{
    if n >= 0 {
        (n as u64) * 2
    } else {
        let m: i64 = -(n + 1);
        (m as u64) * 2 + 1
    }
}

/// Distinct integers have distinct zig-zag codes, so a signed field can be
/// told apart from every other value of it.
pub proof fn zigzag_injective(a: int, b: int)
    requires
        a != b,
    ensures
        zigzag(a) != zigzag(b),
{
}

/// A length-prefixed byte string: the varint of its length, then the bytes.
pub open spec fn bytes_field(b: Seq<u8>) -> Seq<u8> {
    varint_encode(b.len()) + b
}

/// A signed 32- or 64-bit integer field: the varint of its zig-zag code.
pub open spec fn signed_field(n: int) -> Seq<u8> {
    varint_encode(zigzag(n))
}

/// Appends `bytes` to `out` as they are.
pub fn push_raw(out: &mut Vec<u8>, bytes: &[u8])
    ensures
        final(out)@ == old(out)@ + bytes@,
{
    let mut i: usize = 0;
    while i < bytes.len()
        invariant
            i <= bytes@.len(),
            out@ == old(out)@ + bytes@.subrange(0, i as int),
        decreases bytes@.len() - i,
    {
        out.push(bytes[i]);
        assert(bytes@.subrange(0, i + 1) == bytes@.subrange(0, i as int).push(bytes@[i as int]));
        i = i + 1;
    }
    assert(bytes@.subrange(0, bytes@.len() as int) == bytes@);
}

/// Appends `bytes` as a length-prefixed byte string.
pub fn push_bytes_field(out: &mut Vec<u8>, bytes: &[u8])
    ensures
        final(out)@ == old(out)@ + bytes_field(bytes@),
{
    push_varint(out, bytes.len() as u64);
    push_raw(out, bytes);
}

/// The bytes of the status text `OK` that every sealed reply carries.
pub open spec fn ok_text() -> Seq<u8> {
    seq![0x4fu8, 0x4bu8]
}

/// Stored handshake record: the 64 derived key bytes, then the 16 bytes of
/// the user id, each as a length-prefixed byte string.
pub open spec fn record_layout(kdf: Seq<u8>, uid: Seq<u8>) -> Seq<u8> {
    bytes_field(kdf) + bytes_field(uid)
}

/// What reading a stored handshake record gives: the key bytes and the user
/// id, or `None`. Each field must be announced with exactly its length (64,
/// then 16) and be present in full; bytes after the record are ignored.
pub open spec fn parse_record(b: Seq<u8>) -> Option<(Seq<u8>, Seq<u8>)> {
    match varint_decode(b) {
        None => None,
        Some((n1, e1)) => {
            if n1 != 64 || b.len() < e1 + 64 {
                None
            } else {
                let rest = b.skip((e1 + 64) as int);
                match varint_decode(rest) {
                    None => None,
                    Some((n2, e2)) => {
                        if n2 != 16 || rest.len() < e2 + 16 {
                            None
                        } else {
                            Some((b.subrange(e1 as int, (e1 + 64) as int), rest.subrange(e2 as int, (e2 + 16) as int)))
                        }
                    },
                }
            }
        },
    }
}

/// Writes the stored handshake record for `kdf` and `uid`.
pub fn encode_record(kdf: &[u8; 64], uid: &[u8; 16]) -> (out: Vec<u8>)
    ensures
        out@ == record_layout(kdf@, uid@),
{
    let mut out: Vec<u8> = Vec::new();
    push_bytes_field(&mut out, kdf.as_slice());
    push_bytes_field(&mut out, uid.as_slice());
    out
}

/// Reads a stored handshake record.
pub fn decode_record(b: &[u8]) -> (res: Option<([u8; 64], [u8; 16])>)
    ensures
        match parse_record(b@) {
            Some((k, u)) => res matches Some((ka, ua)) && ka@ == k && ua@ == u,
            None => res is None,
        },
{
    assert(b@.skip(0) =~= b@);
    let (n1, e1) = match read_varint(b, 0) {
        Some(r) => r,
        None => return None,
    };
    if n1 != 64 || b.len() - e1 < 64 {
        return None;
    }
    let mut kdf: [u8; 64] = [0u8; 64];
    let mut i: usize = 0;
    while i < 64
        invariant
            e1 + 64 <= b.len(),
            i <= 64,
            forall|j: int| 0 <= j < i ==> kdf@[j] == b@[e1 + j],
        decreases 64 - i,
    {
        kdf[i] = b[e1 + i];
        i = i + 1;
    }
    let start2: usize = e1 + 64;
    let (n2, e2) = match read_varint(b, start2) {
        Some(r) => r,
        None => return None,
    };
    if n2 != 16 || b.len() - e2 < 16 {
        return None;
    }
    let mut uid: [u8; 16] = [0u8; 16];
    let mut j: usize = 0;
    while j < 16
        invariant
            e2 + 16 <= b.len(),
            j <= 16,
            forall|t: int| 0 <= t < j ==> uid@[t] == b@[e2 + t],
        decreases 16 - j,
    {
        uid[j] = b[e2 + j];
        j = j + 1;
    }
    let ghost rest = b@.skip(start2 as int);
    assert(varint_decode(rest) == Some((16nat, (e2 - start2) as nat)));
    assert(kdf@ =~= b@.subrange(e1 as int, e1 + 64));
    assert(uid@ =~= rest.subrange((e2 - start2) as int, (e2 - start2) + 16));
    assert(parse_record(b@) == Some((kdf@, uid@)));
    Some((kdf, uid))
}

/// Reading back a stored record: a record written for 64 key bytes and a
/// 16-byte user id reads back as exactly those bytes.
pub proof fn record_roundtrip(kdf: Seq<u8>, uid: Seq<u8>, trailing: Seq<u8>)
    requires
        kdf.len() == 64,
        uid.len() == 16,
    ensures
        parse_record(record_layout(kdf, uid) + trailing) == Some((kdf, uid)),
{
    let b = record_layout(kdf, uid) + trailing;
    assert(varint_encode(64) == seq![64u8]);
    assert(varint_encode(16) == seq![16u8]);
    let tail1 = kdf + bytes_field(uid) + trailing;
    assert(b =~= varint_encode(64) + tail1);
    varint_roundtrip(64, tail1);
    let rest = b.skip(65);
    let tail2 = uid + trailing;
    assert(rest =~= varint_encode(16) + tail2);
    varint_roundtrip(16, tail2);
    assert(b.subrange(1, 65) =~= kdf);
    assert(rest.subrange(1, 17) =~= uid);
}

/// Sealed reply to a push: status `OK`, the new version and the server time.
pub open spec fn push_reply_layout(version: int, server_time: int) -> Seq<u8> {
    bytes_field(ok_text()) + signed_field(version) + signed_field(server_time)
}

/// Sealed reply to a pull: status `OK`, the stored file and the server time.
pub open spec fn pull_reply_layout(file: Seq<u8>, server_time: int) -> Seq<u8> {
    bytes_field(ok_text()) + bytes_field(file) + signed_field(server_time)
}

/// The zig-zag varints of `vs`, one after the other.
pub open spec fn signed_items(vs: Seq<i32>) -> Seq<u8>
    decreases vs.len(),
{
    if vs.len() == 0 {
        Seq::empty()
    } else {
        signed_items(vs.drop_last()) + signed_field(vs.last() as int)
    }
}

/// Sealed list of versions: the count, then each version.
pub open spec fn versions_layout(vs: Seq<i32>) -> Seq<u8> {
    varint_encode(vs.len()) + signed_items(vs)
}

fn push_ok_text(out: &mut Vec<u8>)
    ensures
        final(out)@ == old(out)@ + bytes_field(ok_text()),
{
    let text: [u8; 2] = [0x4fu8, 0x4bu8];
    assert(text@ =~= ok_text());
    push_bytes_field(out, text.as_slice());
}

/// Writes the sealed reply to a push.
pub fn encode_push_reply(version: i32, server_time: i64) -> (out: Vec<u8>)
    ensures
        out@ == push_reply_layout(version as int, server_time as int),
{
    let mut out: Vec<u8> = Vec::new();
    push_ok_text(&mut out);
    push_varint(&mut out, zigzag_i32(version) as u64);
    push_varint(&mut out, zigzag_i64(server_time));
    out
}

/// Writes the sealed reply to a pull.
pub fn encode_pull_reply(file: &[u8], server_time: i64) -> (out: Vec<u8>)
    ensures
        out@ == pull_reply_layout(file@, server_time as int),
{
    let mut out: Vec<u8> = Vec::new();
    push_ok_text(&mut out);
    push_bytes_field(&mut out, file);
    push_varint(&mut out, zigzag_i64(server_time));
    out
}

/// Writes the sealed list of versions.
pub fn encode_versions(vs: &[i32]) -> (out: Vec<u8>)
    ensures
        out@ == versions_layout(vs@),
{
    let mut out: Vec<u8> = Vec::new();
    push_varint(&mut out, vs.len() as u64);
    let mut i: usize = 0;
    while i < vs.len()
        invariant
            i <= vs@.len(),
            out@ == varint_encode(vs@.len()) + signed_items(vs@.subrange(0, i as int)),
        decreases vs@.len() - i,
    {
        push_varint(&mut out, zigzag_i32(vs[i]) as u64);
        assert(vs@.subrange(0, i + 1).drop_last() =~= vs@.subrange(0, i as int));
        i = i + 1;
    }
    assert(vs@.subrange(0, vs@.len() as int) =~= vs@);
    out
}

proof fn lemma_ok_field(rest: Seq<u8>)
    ensures
        (bytes_field(ok_text()) + rest).subrange(0, 3) == seq![2u8, 0x4fu8, 0x4bu8],
        (bytes_field(ok_text()) + rest).skip(3) == rest,
{
    assert(varint_encode(2) == seq![2u8]);
    assert((bytes_field(ok_text()) + rest).subrange(0, 3) =~= seq![2u8, 0x4fu8, 0x4bu8]);
    assert((bytes_field(ok_text()) + rest).skip(3) =~= rest);
}

proof fn lemma_zigzag_bound(n: int, bits: nat)
    requires
        bits == 32 || bits == 64,
        bits == 32 ==> -0x8000_0000 <= n < 0x8000_0000,
        bits == 64 ==> -0x8000_0000_0000_0000 <= n < 0x8000_0000_0000_0000,
    ensures
        zigzag(n) < 0x1_0000_0000_0000_0000,
{
}

/// A push reply reads back: after the two-byte status `OK`, the first varint
/// is the zig-zag code of the version (`2v` for `v >= 0`, `-2v - 1` below),
/// the next one that of the server time, and nothing follows.
#[verifier::rlimit(40)]
pub proof fn push_reply_reads_back(version: i32, server_time: i64)
    ensures
        ({
            let b = push_reply_layout(version as int, server_time as int);
            &&& b.subrange(0, 3) == seq![2u8, 0x4fu8, 0x4bu8]
            &&& (varint_decode(b.skip(3)) matches Some((v, k)) && (v == (if version >= 0 {
                2 * version
            } else {
                -2 * version - 1
            }) && (varint_decode(b.skip((3 + k) as int)) matches Some((t, e)) && (t == (if server_time >= 0 {
                2 * server_time
            } else {
                -2 * server_time - 1
            }) && 3 + k + e == b.len()))))
        }),
{
    let z1 = zigzag(version as int);
    let z2 = zigzag(server_time as int);
    let e1 = varint_encode(z1);
    let e2 = varint_encode(z2);
    let b = push_reply_layout(version as int, server_time as int);
    assert(b =~= bytes_field(ok_text()) + (e1 + e2));
    lemma_ok_field(e1 + e2);
    lemma_zigzag_bound(version as int, 32);
    lemma_zigzag_bound(server_time as int, 64);
    varint_roundtrip(z1, e2);
    assert(b.skip((3 + e1.len()) as int) =~= e2 + Seq::<u8>::empty());
    varint_roundtrip(z2, Seq::empty());
}

/// A pull reply reads back: after the two-byte status `OK`, the first varint
/// is the file's length, exactly the file's bytes follow it, then the varint
/// of the server time's zig-zag code, and nothing follows.
#[verifier::rlimit(40)]
pub proof fn pull_reply_reads_back(file: Seq<u8>, server_time: i64)
    requires
        file.len() < 0x1_0000_0000_0000_0000,
    ensures
        ({
            let b = pull_reply_layout(file, server_time as int);
            &&& b.subrange(0, 3) == seq![2u8, 0x4fu8, 0x4bu8]
            &&& (varint_decode(b.skip(3)) matches Some((n, k)) && (n == file.len() && 3 + k + n
                <= b.len() && b.subrange((3 + k) as int, (3 + k + n) as int) == file && (varint_decode(b.skip((3 + k + n) as int))
                matches Some((t, e)) && (t == (if server_time >= 0 {
                2 * server_time
            } else {
                -2 * server_time - 1
            }) && 3 + k + n + e == b.len()))))
        }),
{
    let z2 = zigzag(server_time as int);
    let e1 = varint_encode(file.len());
    let e2 = varint_encode(z2);
    let b = pull_reply_layout(file, server_time as int);
    assert(b =~= bytes_field(ok_text()) + (e1 + (file + e2)));
    lemma_ok_field(e1 + (file + e2));
    varint_roundtrip(file.len(), file + e2);
    assert(b.subrange((3 + e1.len()) as int, (3 + e1.len() + file.len()) as int) =~= file);
    lemma_zigzag_bound(server_time as int, 64);
    assert(b.skip((3 + e1.len() + file.len()) as int) =~= e2 + Seq::<u8>::empty());
    varint_roundtrip(z2, Seq::empty());
}

/// Copies `raw` into a fixed array of `N` bytes, or `None` when its length
/// is not `N`.
pub fn bytes_to_array<const N: usize>(raw: &[u8]) -> (r: Option<[u8; N]>)
    ensures
        r is Some <==> raw@.len() == N,
        r matches Some(a) ==> a@ == raw@,
{
    if raw.len() != N {
        return None;
    }
    let mut a: [u8; N] = [0u8; N];
    let mut i: usize = 0;
    while i < N
        invariant
            raw@.len() == N,
            a@.len() == N,
            i <= N,
            forall|j: int| 0 <= j < i ==> a@[j] == raw@[j],
        decreases N - i,
    {
        a[i] = raw[i];
        i = i + 1;
    }
    assert(a@ =~= raw@);
    Some(a)
}

} // verus!
