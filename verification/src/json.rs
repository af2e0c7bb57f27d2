use crate::document::{
    docs_view, lemma_docs_view_index, lemma_docs_view_len, lemma_members_view_index,
    lemma_members_view_len, members_view, Doc, DocV,
};
use vstd::prelude::*;

verus! {

/// Decimal digits of `n`, most significant first.
pub open spec fn dec_digits(n: nat) -> Seq<u8>
    decreases n,
{
    if n < 10 {
        seq![(48 + n) as u8]
    } else {
        dec_digits(n / 10).push((48 + n % 10) as u8)
    }
}

/// The rendering of a whole number: a minus sign for negatives, then the
/// decimal digits.
pub open spec fn ser_int(i: int) -> Seq<u8> {
    if i < 0 {
        seq![45u8] + dec_digits((-i) as nat)
    } else {
        dec_digits(i as nat)
    }
}

/// Lower-case hexadecimal digit for a value below 16.
pub open spec fn hex_digit(n: u8) -> u8 {
    if n < 10 {
        (48 + n) as u8
    } else {
        (87 + n) as u8
    }
}

/// How one byte of a string is rendered inside quotes: quote and backslash
/// get a backslash escape, the named control characters their short escapes,
/// the remaining control bytes a `\u00` escape, and every other byte stands
/// for itself.
pub open spec fn escape_byte(b: u8) -> Seq<u8> {
    if b == 34 {
        seq![92u8, 34u8]
    } else if b == 92 {
        seq![92u8, 92u8]
    } else if b == 8 {
        seq![92u8, 98u8]
    } else if b == 9 {
        seq![92u8, 116u8]
    } else if b == 10 {
        seq![92u8, 110u8]
    } else if b == 12 {
        seq![92u8, 102u8]
    } else if b == 13 {
        seq![92u8, 114u8]
    } else if b < 32 {
        seq![92u8, 117u8, 48u8, 48u8, hex_digit(b / 16), hex_digit(b % 16)]
    } else {
        seq![b]
    }
}

pub open spec fn escape_bytes(bs: Seq<u8>) -> Seq<u8>
    decreases bs.len(),
{
    if bs.len() == 0 {
        Seq::empty()
    } else {
        escape_byte(bs.first()) + escape_bytes(bs.drop_first())
    }
}

/// A character whose rendering inside a JSON string is itself: a single
/// ASCII byte that the escape table passes through unchanged.
pub open spec fn plain_json_char(c: char) -> bool {
    32 <= (c as u32) < 127 && c != '"' && c != '\\'
}

/// A string of plain characters renders one byte per character, plus the two
/// quotes.
pub proof fn lemma_plain_string_rendering(s: Seq<char>)
    requires
        forall|i: int| 0 <= i < s.len() ==> plain_json_char(#[trigger] s[i]),
    ensures
        vstd::utf8::encode_utf8(s).len() == s.len(),
        escape_bytes(vstd::utf8::encode_utf8(s)) == vstd::utf8::encode_utf8(s),
        ser_string(s).len() == s.len() + 2,
    decreases s.len(),
{
    let bs = vstd::utf8::encode_utf8(s);
    if s.len() == 0 {
        assert(escape_bytes(bs) =~= bs);
    } else {
        let c = s.first();
        assert(plain_json_char(s[0]));
        let v = c as u32;
        let b = vstd::utf8::leading_byte_width_1(v);
        assert(b as u32 == v) by (bit_vector)
            requires
                v < 127 && b == (v & 0x7F) as u8,
        ;
        if b == 34 {
            vstd::utf8::char_u32_cast(c, v);
            assert(c == 34u32 as char);
            assert(false);
        }
        if b == 92 {
            vstd::utf8::char_u32_cast(c, v);
            assert(c == 92u32 as char);
            assert(false);
        }
        assert(escape_byte(b) == seq![b]);
        assert(forall|i: int|
            0 <= i < s.drop_first().len() ==> plain_json_char(#[trigger] s.drop_first()[i]));
        lemma_plain_string_rendering(s.drop_first());
        let rest = vstd::utf8::encode_utf8(s.drop_first());
        assert(bs =~= seq![b] + rest);
        assert(bs.drop_first() =~= rest);
        assert(escape_bytes(bs) =~= bs);
    }
}

/// A string rendered as a quoted, escaped UTF-8 byte sequence.
pub open spec fn ser_string(s: Seq<char>) -> Seq<u8> {
    seq![34u8] + escape_bytes(vstd::utf8::encode_utf8(s)) + seq![34u8]
}

/// The canonical rendering of a document: compact, members in list order
/// (canonical documents keep them sorted by key).
pub open spec fn ser_docv(d: DocV) -> Seq<u8>
    decreases d,
{
    match d {
        DocV::Null => seq![110u8, 117u8, 108u8, 108u8],
        DocV::Bool(b) => if b {
            seq![116u8, 114u8, 117u8, 101u8]
        } else {
            seq![102u8, 97u8, 108u8, 115u8, 101u8]
        },
        DocV::Int(i) => ser_int(i),
        DocV::Num(s) => vstd::utf8::encode_utf8(s),
        DocV::Str(s) => ser_string(s),
        DocV::Arr(items) => seq![91u8] + ser_items(items) + seq![93u8],
        DocV::Obj(ms) => seq![123u8] + ser_members(ms) + seq![125u8],
    }
}

pub open spec fn ser_items(items: Seq<DocV>) -> Seq<u8>
    decreases items,
{
    if items.len() == 0 {
        Seq::empty()
    } else if items.len() == 1 {
        ser_docv(items.first())
    } else {
        ser_docv(items.first()) + seq![44u8] + ser_items(items.drop_first())
    }
}

pub open spec fn ser_members(ms: Seq<(Seq<char>, DocV)>) -> Seq<u8>
    decreases ms,
{
    if ms.len() == 0 {
        Seq::empty()
    } else if ms.len() == 1 {
        ser_string(ms.first().0) + seq![58u8] + ser_docv(ms.first().1)
    } else {
        ser_string(ms.first().0) + seq![58u8] + ser_docv(ms.first().1) + seq![44u8] + ser_members(
            ms.drop_first(),
        )
    }
}

/// The rendering of concatenated element runs: the two renderings, with a
/// comma between them when both runs are populated.
pub proof fn lemma_ser_items_concat(a: Seq<DocV>, b: Seq<DocV>)
    ensures
        ser_items(a + b) == (if a.len() == 0 {
            ser_items(b)
        } else if b.len() == 0 {
            ser_items(a)
        } else {
            ser_items(a) + seq![44u8] + ser_items(b)
        }),
    decreases a.len(),
{
    let full = a + b;
    if a.len() == 0 {
        assert(full =~= b);
    } else if b.len() == 0 {
        assert(full =~= a);
    } else {
        assert(full.first() == a.first());
        assert(full.drop_first() =~= a.drop_first() + b);
        lemma_ser_items_concat(a.drop_first(), b);
        assert(ser_items(full) =~= ser_items(a) + seq![44u8] + ser_items(b));
    }
}

pub proof fn lemma_ser_items_snoc(items: Seq<DocV>, d: DocV)
    ensures
        ser_items(items.push(d)) == (if items.len() == 0 {
            ser_docv(d)
        } else {
            ser_items(items) + seq![44u8] + ser_docv(d)
        }),
{
    assert(items.push(d) =~= items + seq![d]);
    lemma_ser_items_concat(items, seq![d]);
    assert(ser_items(seq![d]) == ser_docv(d));
}

/// The rendering of concatenated member runs: the two renderings, with a
/// comma between them when both runs are populated.
pub proof fn lemma_ser_members_concat(a: Seq<(Seq<char>, DocV)>, b: Seq<(Seq<char>, DocV)>)
    ensures
        ser_members(a + b) == (if a.len() == 0 {
            ser_members(b)
        } else if b.len() == 0 {
            ser_members(a)
        } else {
            ser_members(a) + seq![44u8] + ser_members(b)
        }),
    decreases a.len(),
{
    let full = a + b;
    if a.len() == 0 {
        assert(full =~= b);
    } else if b.len() == 0 {
        assert(full =~= a);
    } else {
        assert(full.first() == a.first());
        assert(full.drop_first() =~= a.drop_first() + b);
        lemma_ser_members_concat(a.drop_first(), b);
        assert(ser_members(full) =~= ser_members(a) + seq![44u8] + ser_members(b));
    }
}

pub proof fn lemma_ser_members_snoc(ms: Seq<(Seq<char>, DocV)>, m: (Seq<char>, DocV))
    ensures
        ser_members(ms.push(m)) == (if ms.len() == 0 {
            ser_string(m.0) + seq![58u8] + ser_docv(m.1)
        } else {
            ser_members(ms) + seq![44u8] + ser_string(m.0) + seq![58u8] + ser_docv(m.1)
        }),
{
    assert(ms.push(m) =~= ms + seq![m]);
    lemma_ser_members_concat(ms, seq![m]);
    assert(ser_members(seq![m]) == ser_string(m.0) + seq![58u8] + ser_docv(m.1));
    if ms.len() > 0 {
        assert(ser_members(ms) + seq![44u8] + (ser_string(m.0) + seq![58u8] + ser_docv(m.1))
            =~= ser_members(ms) + seq![44u8] + ser_string(m.0) + seq![58u8] + ser_docv(m.1));
    }
}

pub proof fn lemma_escape_bytes_snoc(bs: Seq<u8>, b: u8)
    ensures
        escape_bytes(bs.push(b)) == escape_bytes(bs) + escape_byte(b),
    decreases bs.len(),
{
    let full = bs.push(b);
    if bs.len() == 0 {
        assert(full.first() == b);
        assert(full.drop_first() =~= bs);
        assert(escape_bytes(full) =~= escape_bytes(bs) + escape_byte(b));
    } else {
        assert(full.first() == bs.first());
        assert(full.drop_first() =~= bs.drop_first().push(b));
        lemma_escape_bytes_snoc(bs.drop_first(), b);
        assert(escape_bytes(full) =~= escape_bytes(bs) + escape_byte(b));
    }
}

fn hex_digit_of(n: u8) -> (r: u8)
    requires
        n < 16,
    ensures
        r == hex_digit(n),
{
    if n < 10 {
        48 + n
    } else {
        87 + n
    }
}

fn write_u64(out: &mut Vec<u8>, n: u64)
    ensures
        final(out)@ == old(out)@ + dec_digits(n as nat),
    decreases n,
{
    if n < 10 {
        out.push(48 + n as u8);
        proof {
            assert(out@ =~= old(out)@ + dec_digits(n as nat));
        }
    } else {
        write_u64(out, n / 10);
        out.push(48 + (n % 10) as u8);
        proof {
            assert(out@ =~= old(out)@ + dec_digits(n as nat));
        }
    }
}

fn write_int(out: &mut Vec<u8>, i: i64)
    ensures
        final(out)@ == old(out)@ + ser_int(i as int),
{
    if i < 0 {
        out.push(45);
        let m: u64 = ((-(i + 1)) as u64) + 1;
        write_u64(out, m);
        proof {
            assert(m as nat == (-(i as int)) as nat);
            assert(out@ =~= old(out)@ + ser_int(i as int));
        }
    } else {
        write_u64(out, i as u64);
        proof {
            assert(out@ =~= old(out)@ + ser_int(i as int));
        }
    }
}

fn write_string(out: &mut Vec<u8>, s: &str)
    ensures
        final(out)@ == old(out)@ + ser_string(s@),
{
    let ghost out0 = out@;
    out.push(34);
    let bytes = s.as_bytes();
    let ghost bs = bytes@;
    let n = bytes.len();
    let mut k: usize = 0;
    proof {
        assert(bs.take(0) =~= Seq::<u8>::empty());
        assert(out@ =~= out0 + seq![34u8] + escape_bytes(bs.take(0)));
    }
    while k < n
        invariant
            k <= n,
            n == bs.len(),
            bs == bytes@,
            out@ == out0 + seq![34u8] + escape_bytes(bs.take(k as int)),
        decreases n - k,
    {
        let b = bytes[k];
        proof {
            lemma_escape_bytes_snoc(bs.take(k as int), b);
            assert(bs.take(k as int).push(bs[k as int]) =~= bs.take(k as int + 1));
        }
        if b == 34 {
            out.push(92);
            out.push(34);
        } else if b == 92 {
            out.push(92);
            out.push(92);
        } else if b == 8 {
            out.push(92);
            out.push(98);
        } else if b == 9 {
            out.push(92);
            out.push(116);
        } else if b == 10 {
            out.push(92);
            out.push(110);
        } else if b == 12 {
            out.push(92);
            out.push(102);
        } else if b == 13 {
            out.push(92);
            out.push(114);
        } else if b < 32 {
            out.push(92);
            out.push(117);
            out.push(48);
            out.push(48);
            out.push(hex_digit_of(b / 16));
            out.push(hex_digit_of(b % 16));
        } else {
            out.push(b);
        }
        proof {
            assert(out@ =~= out0 + seq![34u8] + escape_bytes(bs.take(k as int + 1)));
        }
        k += 1;
    }
    out.push(34);
    proof {
        assert(bs.take(n as int) =~= bs);
        assert(out@ =~= old(out)@ + ser_string(s@));
    }
}

/// Append the canonical JSON rendering of `d` to `out`.
pub fn write_doc(out: &mut Vec<u8>, d: &Doc)
    ensures
        final(out)@ == old(out)@ + ser_docv(d@),
    decreases *d,
{
    let ghost out0 = out@;
    match d {
        Doc::Null => {
            out.push(110);
            out.push(117);
            out.push(108);
            out.push(108);
            proof {
                assert(out@ =~= out0 + ser_docv(d@));
            }
        },
        Doc::Bool(b) => {
            if *b {
                out.push(116);
                out.push(114);
                out.push(117);
                out.push(101);
            } else {
                out.push(102);
                out.push(97);
                out.push(108);
                out.push(115);
                out.push(101);
            }
            proof {
                assert(out@ =~= out0 + ser_docv(d@));
            }
        },
        Doc::Int(i) => {
            write_int(out, *i);
        },
        Doc::Num(s) => {
            let bytes = s.as_str().as_bytes();
            let ghost bs = bytes@;
            let n = bytes.len();
            let mut k: usize = 0;
            proof {
                assert(bs.take(0) =~= Seq::<u8>::empty());
                assert(out@ =~= out0 + bs.take(0));
            }
            while k < n
                invariant
                    k <= n,
                    n == bs.len(),
                    bs == bytes@,
                    out@ == out0 + bs.take(k as int),
                decreases n - k,
            {
                out.push(bytes[k]);
                proof {
                    assert(bs.take(k as int).push(bs[k as int]) =~= bs.take(k as int + 1));
                    assert(out@ =~= out0 + bs.take(k as int + 1));
                }
                k += 1;
            }
            proof {
                assert(bs.take(n as int) =~= bs);
                assert(out@ =~= out0 + ser_docv(d@));
            }
        },
        Doc::Str(s) => {
            write_string(out, s.as_str());
        },
        Doc::Arr(items) => {
            let ghost iv = docs_view(items@);
            proof {
                lemma_docs_view_len(items@);
            }
            out.push(91);
            let n = items.len();
            let mut k: usize = 0;
            proof {
                assert(iv.take(0) =~= Seq::<DocV>::empty());
                assert(out@ =~= out0 + seq![91u8] + ser_items(iv.take(0)));
            }
            while k < n
                invariant
                    k <= n,
                    n == items@.len(),
                    d is Arr,
                    items@ == d->Arr_0@,
                    iv == docs_view(items@),
                    iv.len() == n,
                    out@ == out0 + seq![91u8] + ser_items(iv.take(k as int)),
                decreases n - k,
            {
                if k > 0 {
                    out.push(44);
                }
                proof {
                    lemma_docs_view_index(items@, k as int);
                    assert(decreases_to!(*d => d->Arr_0));
                    assert(decreases_to!(d->Arr_0 => d->Arr_0@));
                    assert(decreases_to!(d->Arr_0@ => d->Arr_0@[k as int]));
                }
                write_doc(out, &items[k]);
                proof {
                    lemma_ser_items_snoc(iv.take(k as int), iv[k as int]);
                    assert(iv.take(k as int).push(iv[k as int]) =~= iv.take(k as int + 1));
                    assert(out@ =~= out0 + seq![91u8] + ser_items(iv.take(k as int + 1)));
                }
                k += 1;
            }
            out.push(93);
            proof {
                assert(iv.take(n as int) =~= iv);
                assert(out@ =~= out0 + ser_docv(d@));
            }
        },
        Doc::Obj(members) => {
            let ghost mv = members_view(members@);
            proof {
                lemma_members_view_len(members@);
            }
            out.push(123);
            let n = members.len();
            let mut k: usize = 0;
            proof {
                assert(mv.take(0) =~= Seq::<(Seq<char>, DocV)>::empty());
                assert(out@ =~= out0 + seq![123u8] + ser_members(mv.take(0)));
            }
            while k < n
                invariant
                    k <= n,
                    n == members@.len(),
                    d is Obj,
                    members@ == d->Obj_0@,
                    mv == members_view(members@),
                    mv.len() == n,
                    out@ == out0 + seq![123u8] + ser_members(mv.take(k as int)),
                decreases n - k,
            {
                if k > 0 {
                    out.push(44);
                }
                proof {
                    lemma_members_view_index(members@, k as int);
                }
                write_string(out, members[k].0.as_str());
                out.push(58);
                proof {
                    assert(decreases_to!(*d => d->Obj_0));
                    assert(decreases_to!(d->Obj_0 => d->Obj_0@));
                    assert(decreases_to!(d->Obj_0@ => d->Obj_0@[k as int]));
                    assert(decreases_to!(d->Obj_0@[k as int] => d->Obj_0@[k as int].1));
                }
                write_doc(out, &members[k].1);
                proof {
                    lemma_ser_members_snoc(mv.take(k as int), mv[k as int]);
                    assert(mv.take(k as int).push(mv[k as int]) =~= mv.take(k as int + 1));
                    assert(out@ =~= out0 + seq![123u8] + ser_members(mv.take(k as int + 1)));
                }
                k += 1;
            }
            out.push(125);
            proof {
                assert(mv.take(n as int) =~= mv);
                assert(out@ =~= out0 + ser_docv(d@));
            }
        },
    }
}

/// The canonical JSON rendering of a document as a byte vector.
pub fn doc_to_json(d: &Doc) -> (r: Vec<u8>)
    ensures
        r@ == ser_docv(d@),
{
    let mut out: Vec<u8> = Vec::new();
    write_doc(&mut out, d);
    proof {
        assert(out@ =~= ser_docv(d@));
    }
    out
}

} // verus!
