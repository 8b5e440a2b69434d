//! The custom sections of a WASM module.
use vstd::prelude::*;
use vstd::slice::slice_subrange;

verus! {

broadcast use vstd::string::group_string_axioms;

/// The LEB128 number whose byte with index `i` stands at `pos + i`, with five bytes at most: the
/// number, and where the bytes behind it begin.
pub open spec fn leb_from(buf: Seq<u8>, pos: int, i: int) -> Option<(nat, int)>
    decreases 5 - i,
{
    if i >= 5 || pos + i >= buf.len() {
        None
    } else {
        let byte = buf[pos + i];
        if byte < 128 {
            Some((byte as nat, pos + i + 1))
        } else {
            match leb_from(buf, pos, i + 1) {
                None => None,
                Some((rest, next)) => Some(((byte - 128) as nat + 128 * rest, next)),
            }
        }
    }
}

/// The 32-bit LEB128 number at a position, and where the bytes behind it begin. What does not fit
/// into 32 bits is dropped.
pub open spec fn leb128(buf: Seq<u8>, pos: int) -> Option<(nat, int)> {
    match leb_from(buf, pos, 0) {
        None => None,
        Some((n, next)) => Some((n % 0x1_0000_0000, next)),
    }
}

/// The bytes of a number in LEB128.
pub open spec fn leb_bytes(n: nat) -> Seq<u8>
    decreases n,
{
    if n < 128 {
        seq![n as u8]
    } else {
        seq![(n % 128 + 128) as u8] + leb_bytes(n / 128)
    }
}

spec fn power(i: int) -> nat
    decreases i,
{
    if i <= 0 {
        1
    } else {
        128 * power(i - 1)
    }
}

proof fn lemma_power_values()
    ensures
        power(0) == 1,
        power(1) == 128,
        power(2) == 16384,
        power(3) == 2097152,
        power(4) == 268435456,
        power(5) == 34359738368,
{
    reveal_with_fuel(power, 6);
}

/// Where a read that finds no number stops: behind the fifth byte, or at the end before that. A
/// position past the end stays.
pub open spec fn stuck_at(len: nat, pos: int) -> int {
    if pos >= len {
        pos
    } else if pos + 5 <= len {
        pos + 5
    } else {
        len as int
    }
}

/// Reads a 32-bit LEB128 number and moves the position behind it.
pub fn read_leb128_u32(buf: &[u8], pos: &mut usize) -> (r: Option<u32>)
    ensures
        match leb128(buf@, *old(pos) as int) {
            Some((n, next)) => r == Some(n as u32) && *final(pos) == next && *old(pos) < next
                <= buf@.len(),
            None => r is None && *final(pos) == stuck_at(buf@.len(), *old(pos) as int),
        },
{
    let start: usize = *pos;
    let ghost b = buf@;
    let mut sum: u64 = 0;
    let mut factor: u64 = 1;
    let mut i: usize = 0;
    while i < 5
        invariant
            i <= 5,
            b == buf@,
            i > 0 ==> start + i <= b.len(),
            *pos == start + i,
            *old(pos) == start,
            factor == power(i as int),
            sum < power(i as int),
            match leb_from(b, start as int, i as int) {
                None => leb_from(b, start as int, 0) is None,
                Some((rest, next)) => leb_from(b, start as int, 0) == Some(
                    ((sum + power(i as int) * rest) as nat, next),
                ),
            },
        decreases 5 - i,
    {
        proof {
            lemma_power_values();
        }
        if *pos >= buf.len() {
            return None;
        }
        let byte: u8 = buf[*pos];
        *pos = *pos + 1;
        let digit: u64 = (byte % 128) as u64;
        let ghost p = power(i as int);
        assert(digit * factor <= 127 * factor) by (nonlinear_arith)
            requires
                digit <= 127,
                factor >= 0,
        ;
        assert(digit * factor == p * digit) by (nonlinear_arith)
            requires
                factor == p,
        ;
        let ghost before = sum;
        sum = sum + digit * factor;
        if byte < 128 {
            assert(leb_from(b, start as int, 0) == Some((sum as nat, start + i + 1)));
            return Some((sum % 0x1_0000_0000) as u32);
        }
        proof {
            assert(power(i + 1) == 128 * p);
            match leb_from(b, start as int, i + 1) {
                None => {},
                Some((rest, next)) => {
                    assert(p * (digit + 128 * rest) == p * digit + (128 * p) * rest)
                        by (nonlinear_arith);
                },
            }
        }
        factor = if i < 4 {
            factor * 128
        } else {
            34359738368
        };
        i = i + 1;
    }
    None
}

/// A number is read back from its LEB128 bytes, wherever they stand.
pub proof fn leb128_reads_back(before: Seq<u8>, n: u32, after: Seq<u8>)
    ensures
        leb128(before + leb_bytes(n as nat) + after, before.len() as int) == Some(
            (n as nat, (before.len() + leb_bytes(n as nat).len()) as int),
        ),
{
    let buf = before + leb_bytes(n as nat) + after;
    assert(buf.skip(before.len() as int) =~= leb_bytes(n as nat) + after);
    lemma_leb_reads_back(buf, before.len() as int, 0, n as nat, after);
}

spec fn bound(i: int) -> nat {
    if i <= 0 {
        0x1_0000_0000
    } else if i == 1 {
        0x200_0000
    } else if i == 2 {
        0x4_0000
    } else if i == 3 {
        0x800
    } else {
        16
    }
}

proof fn lemma_leb_reads_back(buf: Seq<u8>, pos: int, i: int, n: nat, after: Seq<u8>)
    requires
        0 <= i < 5,
        0 <= pos,
        pos + i <= buf.len(),
        n < bound(i),
        buf.skip(pos + i) == leb_bytes(n) + after,
    ensures
        leb_from(buf, pos, i) == Some((n, pos + i + leb_bytes(n).len())),
    decreases n,
{
    let rest = buf.skip(pos + i);
    assert(leb_bytes(n).len() >= 1);
    assert(rest[0] == leb_bytes(n)[0]);
    assert(buf[pos + i] == rest[0]);
    if n >= 128 {
        assert(i < 4);
        assert(buf.skip(pos + i + 1) =~= leb_bytes(n / 128) + after) by {
            assert(buf.skip(pos + i + 1) =~= rest.skip(1));
            assert((leb_bytes(n) + after).skip(1) =~= leb_bytes(n / 128) + after);
        }
        lemma_leb_reads_back(buf, pos, i + 1, n / 128, after);
    }
}

/// The section of a module at a position: its id, where its contents begin and where they end.
pub open spec fn section_at(wasm: Seq<u8>, pos: int) -> Option<(u8, int, int)> {
    match leb128(wasm, pos + 1) {
        None => None,
        Some((size, start)) => if start + size > wasm.len() {
            None
        } else {
            Some((wasm[pos], start, start + size))
        },
    }
}

/// The first custom section with the given name, from a position on: what follows the name in it.
/// A section that cannot be read ends the search.
pub open spec fn section_from(wasm: Seq<u8>, pos: int, name: Seq<u8>) -> Option<Seq<u8>>
    decreases wasm.len() - pos,
    when 0 <= pos
{
    if pos >= wasm.len() {
        None
    } else {
        match section_at(wasm, pos) {
            None => None,
            Some((id, start, end)) => if end <= pos {
                None
            } else if id != 0 {
                section_from(wasm, end, name)
            } else {
                match leb128(wasm, start) {
                    None => None,
                    Some((length, p)) => if p + length <= end && wasm.subrange(p, p + length)
                        == name {
                        Some(wasm.subrange(p + length, end))
                    } else {
                        section_from(wasm, end, name)
                    },
                }
            },
        }
    }
}

/// The first custom section of a module with the given name. Bytes that do not begin with the
/// magic number and a version are no module and have none.
pub open spec fn custom_section(wasm: Seq<u8>, name: Seq<u8>) -> Option<Seq<u8>> {
    if wasm.len() < 8 || wasm.take(4) != seq![0u8, 97, 115, 109] {
        None
    } else {
        section_from(wasm, 8, name)
    }
}

fn same_bytes(buf: &[u8], from: usize, to: usize, name: &[u8]) -> (r: bool)
    requires
        from <= to <= buf@.len(),
    ensures
        r == (buf@.subrange(from as int, to as int) == name@),
{
    if to - from != name.len() {
        return false;
    }
    let mut i: usize = 0;
    while i < name.len()
        invariant
            i <= name.len(),
            from <= to <= buf@.len(),
            to - from == name@.len(),
            forall|k: int| 0 <= k < i ==> buf@[from + k] == #[trigger] name@[k],
        decreases name.len() - i,
    {
        if buf[from + i] != name[i] {
            assert(buf@.subrange(from as int, to as int)[i as int] != name@[i as int]);
            return false;
        }
        i = i + 1;
    }
    assert(buf@.subrange(from as int, to as int) =~= name@);
    true
}

proof fn lemma_leb_range(buf: Seq<u8>, pos: int, i: int)
    requires
        0 <= pos,
        0 <= i,
    ensures
        match leb_from(buf, pos, i) {
            Some((n, next)) => pos + i < next <= buf.len(),
            None => true,
        },
    decreases 5 - i,
{
    if i < 5 && pos + i < buf.len() && buf[pos + i] >= 128 {
        lemma_leb_range(buf, pos, i + 1);
    }
}

/// The first custom section of a module with the given name, without the name.
pub fn extract_custom_section<'a>(wasm: &'a [u8], name: &str) -> (r: Option<&'a [u8]>)
    ensures
        match r {
            Some(section) => custom_section(wasm@, vstd::utf8::encode_utf8(name@)) == Some(
                section@,
            ),
            None => custom_section(wasm@, vstd::utf8::encode_utf8(name@)) is None,
        },
{
    let n: usize = wasm.len();
    if n < 8 {
        return None;
    }
    let ghost w = wasm@;
    let name_bytes = name.as_bytes();
    let ghost target = name_bytes@;
    if wasm[0] != 0 || wasm[1] != 97 || wasm[2] != 115 || wasm[3] != 109 {
        proof {
            let magic = seq![0u8, 97, 115, 109];
            if w.take(4) == magic {
                assert(w[0] == w.take(4)[0] && w[1] == w.take(4)[1] && w[2] == w.take(4)[2] && w[3]
                    == w.take(4)[3]);
            }
        }
        return None;
    }
    assert(w.take(4) =~= seq![0u8, 97, 115, 109]);
    let mut pos: usize = 8;
    while pos < n
        invariant
            8 <= pos <= n,
            n == w.len(),
            w == wasm@,
            target == name_bytes@,
            target == vstd::utf8::encode_utf8(name@),
            custom_section(w, target) == section_from(w, pos as int, target),
        decreases n - pos,
    {
        let id: u8 = wasm[pos];
        let ghost at = pos as int;
        let mut p: usize = pos + 1;
        let size: usize = match read_leb128_u32(wasm, &mut p) {
            Some(size) => size as usize,
            None => return None,
        };
        proof {
            lemma_leb_range(w, at + 1, 0);
        }
        if size > n - p {
            return None;
        }
        let end: usize = p + size;
        assert(section_at(w, at) == Some((id, p as int, end as int)));
        if id == 0 {
            let length: usize = match read_leb128_u32(wasm, &mut p) {
                Some(length) => length as usize,
                None => return None,
            };
            if p <= end && length <= end - p {
                if same_bytes(wasm, p, p + length, name_bytes) {
                    return Some(slice_subrange(wasm, p + length, end));
                }
            }
        }
        pos = end;
    }
    None
}

/// A custom section with the given name and payload.
pub open spec fn section_bytes(name: Seq<u8>, payload: Seq<u8>) -> Seq<u8> {
    let contents = leb_bytes(name.len()) + name + payload;
    seq![0u8] + leb_bytes(contents.len()) + contents
}

/// The section that was put behind the header of a module is found there, whatever follows it.
pub proof fn written_sections_are_found(
    header: Seq<u8>,
    name: Seq<u8>,
    payload: Seq<u8>,
    after: Seq<u8>,
)
    requires
        header.len() == 8,
        header.take(4) == seq![0u8, 97, 115, 109],
        leb_bytes(name.len()).len() + name.len() + payload.len() <= u32::MAX,
    ensures
        custom_section(header + section_bytes(name, payload) + after, name) == Some(payload),
{
    let contents = leb_bytes(name.len()) + name + payload;
    let size = contents.len();
    let wasm = header + section_bytes(name, payload) + after;
    assert(wasm.take(4) =~= header.take(4));
    let front = header.push(0u8);
    assert(wasm =~= front + leb_bytes(size) + (contents + after));
    leb128_reads_back(front, size as u32, contents + after);
    let start = 9 + leb_bytes(size).len() as int;
    assert(wasm[8] == 0u8);
    assert(section_at(wasm, 8) == Some((0u8, start, start + size)));
    let ahead = front + leb_bytes(size);
    assert(wasm =~= ahead + leb_bytes(name.len()) + (name + payload + after));
    leb128_reads_back(ahead, name.len() as u32, name + payload + after);
    let p = start + leb_bytes(name.len()).len() as int;
    assert(wasm.subrange(p, p + name.len()) =~= name);
    assert(wasm.subrange(p + name.len(), start + size) =~= payload);
}

proof fn lemma_section_found(before: Seq<u8>, name: Seq<u8>, payload: Seq<u8>, after: Seq<u8>)
    requires
        leb_bytes(name.len()).len() + name.len() + payload.len() <= u32::MAX,
    ensures
        section_from(
            before + section_bytes(name, payload) + after,
            before.len() as int,
            name,
        ) == Some(payload),
{
    let contents = leb_bytes(name.len()) + name + payload;
    let size = contents.len();
    let at = before.len() as int;
    let wasm = before + section_bytes(name, payload) + after;
    let front = before.push(0u8);
    assert(wasm =~= front + leb_bytes(size) + (contents + after));
    leb128_reads_back(front, size as u32, contents + after);
    let start = at + 1 + leb_bytes(size).len() as int;
    assert(wasm[at] == 0u8);
    assert(section_at(wasm, at) == Some((0u8, start, start + size)));
    let ahead = front + leb_bytes(size);
    assert(wasm =~= ahead + leb_bytes(name.len()) + (name + payload + after));
    leb128_reads_back(ahead, name.len() as u32, name + payload + after);
    let p = start + leb_bytes(name.len()).len() as int;
    assert(wasm.subrange(p, p + name.len()) =~= name);
    assert(wasm.subrange(p + name.len(), start + size) =~= payload);
}

/// A section of another kind is passed over, whatever it holds, and the section behind it is found.
pub proof fn sections_of_other_kinds_are_passed_over(
    header: Seq<u8>,
    id: u8,
    contents: Seq<u8>,
    name: Seq<u8>,
    payload: Seq<u8>,
    after: Seq<u8>,
)
    requires
        header.len() == 8,
        header.take(4) == seq![0u8, 97, 115, 109],
        id != 0,
        contents.len() <= u32::MAX,
        leb_bytes(name.len()).len() + name.len() + payload.len() <= u32::MAX,
    ensures
        custom_section(
            header + (seq![id] + leb_bytes(contents.len()) + contents) + section_bytes(name, payload)
                + after,
            name,
        ) == Some(payload),
{
    let first = seq![id] + leb_bytes(contents.len()) + contents;
    let before = header + first;
    let wasm = before + section_bytes(name, payload) + after;
    assert(wasm.take(4) =~= header.take(4));
    let front = header.push(id);
    let behind = contents + section_bytes(name, payload) + after;
    assert(wasm =~= front + leb_bytes(contents.len()) + behind);
    leb128_reads_back(front, contents.len() as u32, behind);
    assert(wasm[8] == id);
    lemma_section_found(before, name, payload, after);
}

/// What does not begin as a module has no sections, and neither does a module without any.
pub proof fn only_modules_have_sections(bytes: Seq<u8>, name: Seq<u8>)
    ensures
        bytes.len() < 8 ==> custom_section(bytes, name) is None,
        bytes.len() == 8 ==> custom_section(bytes, name) is None,
        bytes.len() >= 8 && !(bytes[0] == 0 && bytes[1] == 97 && bytes[2] == 115 && bytes[3] == 109)
            ==> custom_section(bytes, name) is None,
{
    if bytes.len() >= 8 && bytes.take(4) == seq![0u8, 97, 115, 109] {
        assert(bytes.take(4)[0] == bytes[0] && bytes.take(4)[1] == bytes[1] && bytes.take(4)[2]
            == bytes[2] && bytes.take(4)[3] == bytes[3]);
    }
}

/// Where a number cannot be read, the read stops behind the fifth byte, or at the end of the bytes
/// where that comes first, and never goes back.
pub proof fn failed_reads_stop_in_the_bytes(len: nat, pos: int)
    requires
        0 <= pos,
    ensures
        pos + 5 <= len ==> stuck_at(len, pos) == pos + 5,
        pos <= len < pos + 5 ==> stuck_at(len, pos) == len,
        pos > len ==> stuck_at(len, pos) == pos,
{
}

} // verus!
