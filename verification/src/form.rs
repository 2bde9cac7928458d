use crate::types::DbError;
use vstd::prelude::*;

verus! {

// The create and update routes receive a form-encoded body: pairs separated
// by `&`, each pair a key, `=` and a value, with `+` standing for a space
// and `%XX` for the byte XX. The fields url, title and notes must each be
// present exactly once; unknown keys are ignored; a pair without `=` has an
// empty value; empty pair segments are skipped. A malformed escape, a
// missing field or a repeated field makes the whole body invalid.
/// A hexadecimal digit, either case.
pub open spec fn is_hex_digit(b: u8) -> bool {
    (48 <= b <= 57) || (97 <= b <= 102) || (65 <= b <= 70)
}

/// The value of a hexadecimal digit.
pub open spec fn hex_val(b: u8) -> u8 {
    if 48 <= b <= 57 {
        (b - 48) as u8
    } else if 97 <= b <= 102 {
        (b - 87) as u8
    } else {
        (b - 55) as u8
    }
}

pub open spec fn prepend(b: u8, rest: Option<Seq<u8>>) -> Option<Seq<u8>> {
    match rest {
        Some(t) => Some(seq![b] + t),
        None => None,
    }
}

/// Percent-decoding of one key or value: `+` becomes a space, `%XX` the
/// byte XX; a `%` not followed by two hexadecimal digits makes the whole
/// component invalid.
pub open spec fn pct_decode(s: Seq<u8>) -> Option<Seq<u8>>
    decreases s.len(),
{
    if s.len() == 0 {
        Some(Seq::<u8>::empty())
    } else if s[0] == 43 {
        prepend(32, pct_decode(s.skip(1)))
    } else if s[0] == 37 {
        if s.len() >= 3 && is_hex_digit(s[1]) && is_hex_digit(s[2]) {
            prepend((hex_val(s[1]) * 16 + hex_val(s[2])) as u8, pct_decode(s.skip(3)))
        } else {
            None
        }
    } else {
        prepend(s[0], pct_decode(s.skip(1)))
    }
}

/// The first position of `b` in `s`, or `s.len()` when `b` does not occur.
pub open spec fn find_byte(s: Seq<u8>, b: u8) -> int
    decreases s.len(),
{
    if s.len() == 0 {
        0
    } else if s[0] == b {
        0
    } else {
        1 + find_byte(s.skip(1), b)
    }
}

pub open spec fn url_key() -> Seq<u8> {
    seq![117u8, 114u8, 108u8]
}

pub open spec fn title_key() -> Seq<u8> {
    seq![116u8, 105u8, 116u8, 108u8, 101u8]
}

pub open spec fn notes_key() -> Seq<u8> {
    seq![110u8, 111u8, 116u8, 101u8, 115u8]
}

/// The fields collected while walking the pairs: `None` is "not seen yet".
pub ghost struct FormFieldsView {
    pub url: Option<Seq<u8>>,
    pub title: Option<Seq<u8>>,
    pub notes: Option<Seq<u8>>,
}

/// Fold one raw pair into the collected fields: decode key and value,
/// reject a repeated known key, ignore an unknown one.
pub open spec fn apply_pair(acc: FormFieldsView, p: Seq<u8>) -> Option<FormFieldsView> {
    let eq = find_byte(p, 61);
    let key = pct_decode(p.take(eq));
    let value = pct_decode(if eq == p.len() {
        Seq::<u8>::empty()
    } else {
        p.skip(eq + 1)
    });
    match (key, value) {
        (Some(k), Some(v)) => if k == url_key() {
            if acc.url is Some {
                None
            } else {
                Some(FormFieldsView { url: Some(v), ..acc })
            }
        } else if k == title_key() {
            if acc.title is Some {
                None
            } else {
                Some(FormFieldsView { title: Some(v), ..acc })
            }
        } else if k == notes_key() {
            if acc.notes is Some {
                None
            } else {
                Some(FormFieldsView { notes: Some(v), ..acc })
            }
        } else {
            Some(acc)
        },
        _ => None,
    }
}

/// The first position is never negative and never past the end.
pub proof fn lemma_find_byte_range(s: Seq<u8>, b: u8)
    ensures
        0 <= find_byte(s, b) <= s.len(),
    decreases s.len(),
{
    if s.len() != 0 && s[0] != b {
        lemma_find_byte_range(s.skip(1), b);
    }
}

/// Walk the `&`-separated pairs of `s`, folding each into `acc`.
pub open spec fn parse_pairs(s: Seq<u8>, acc: FormFieldsView) -> Option<FormFieldsView>
    decreases s.len(),
    via parse_pairs_decreases
{
    let amp = find_byte(s, 38);
    let p = s.take(amp);
    let folded = if p.len() == 0 {
        Some(acc)
    } else {
        apply_pair(acc, p)
    };
    if amp == s.len() {
        folded
    } else {
        match folded {
            Some(a) => parse_pairs(s.skip(amp + 1), a),
            None => None,
        }
    }
}

#[via_fn]
proof fn parse_pairs_decreases(s: Seq<u8>, acc: FormFieldsView) {
    lemma_find_byte_range(s, 38);
}

/// What a whole body parses to: the three decoded fields, or nothing when
/// a component is malformed or a field is missing or repeated.
pub open spec fn parse_form_spec(s: Seq<u8>) -> Option<(Seq<u8>, Seq<u8>, Seq<u8>)> {
    let start = FormFieldsView { url: None, title: None, notes: None };
    match parse_pairs(s, start) {
        Some(a) => match (a.url, a.title, a.notes) {
            (Some(u), Some(t), Some(n)) => Some((u, t, n)),
            _ => None,
        },
        None => None,
    }
}

/// The three raw field values of a decoded form body. They are bytes: the
/// caller turns them into text at the boundary.
pub struct EntryFormFields {
    pub url: Vec<u8>,
    pub title: Vec<u8>,
    pub notes: Vec<u8>,
}

/// The fields collected so far while walking the pairs.
struct FormFields {
    url: Option<Vec<u8>>,
    title: Option<Vec<u8>>,
    notes: Option<Vec<u8>>,
}

impl View for FormFields {
    type V = FormFieldsView;

    closed spec fn view(&self) -> FormFieldsView {
        FormFieldsView {
            url: match self.url {
                Some(v) => Some(v@),
                None => None,
            },
            title: match self.title {
                Some(v) => Some(v@),
                None => None,
            },
            notes: match self.notes {
                Some(v) => Some(v@),
                None => None,
            },
        }
    }
}

fn hex_digit_val(b: u8) -> (r: Option<u8>)
    ensures
        r is Some <==> is_hex_digit(b),
        r matches Some(v) ==> v == hex_val(b) && v < 16,
{
    if 48 <= b && b <= 57 {
        Some(b - 48)
    } else if 97 <= b && b <= 102 {
        Some(b - 87)
    } else if 65 <= b && b <= 70 {
        Some(b - 55)
    } else {
        None
    }
}

fn pct_decode_exec(s: &[u8], lo: usize, hi: usize) -> (r: Option<Vec<u8>>)
    requires
        lo <= hi <= s@.len(),
    ensures
        (match r {
            Some(v) => pct_decode(s@.subrange(lo as int, hi as int)) == Some(v@),
            None => pct_decode(s@.subrange(lo as int, hi as int)) is None,
        }),
    decreases hi - lo,
{
    let ghost sub = s@.subrange(lo as int, hi as int);
    if lo == hi {
        proof {
            assert(sub =~= Seq::<u8>::empty());
        }
        Some(Vec::new())
    } else {
        let b = s[lo];
        proof {
            assert(sub[0] == b);
        }
        if b == 43 {
            proof {
                assert(sub.skip(1) =~= s@.subrange(lo as int + 1, hi as int));
            }
            match pct_decode_exec(s, lo + 1, hi) {
                Some(mut v) => {
                    v.insert(0, 32);
                    proof {
                        assert(v@ =~= seq![32u8] + v@.skip(1));
                    }
                    Some(v)
                },
                None => None,
            }
        } else if b == 37 {
            if hi - lo >= 3 {
                let h1 = hex_digit_val(s[lo + 1]);
                let h2 = hex_digit_val(s[lo + 2]);
                proof {
                    assert(sub[1] == s@[lo as int + 1]);
                    assert(sub[2] == s@[lo as int + 2]);
                }
                match (h1, h2) {
                    (Some(v1), Some(v2)) => {
                        let decoded: u8 = v1 * 16 + v2;
                        proof {
                            assert(sub.skip(3) =~= s@.subrange(lo as int + 3, hi as int));
                        }
                        match pct_decode_exec(s, lo + 3, hi) {
                            Some(mut v) => {
                                v.insert(0, decoded);
                                proof {
                                    assert(v@ =~= seq![decoded] + v@.skip(1));
                                }
                                Some(v)
                            },
                            None => None,
                        }
                    },
                    _ => None,
                }
            } else {
                None
            }
        } else {
            proof {
                assert(sub.skip(1) =~= s@.subrange(lo as int + 1, hi as int));
            }
            match pct_decode_exec(s, lo + 1, hi) {
                Some(mut v) => {
                    v.insert(0, b);
                    proof {
                        assert(v@ =~= seq![b] + v@.skip(1));
                    }
                    Some(v)
                },
                None => None,
            }
        }
    }
}

fn find_byte_exec(s: &[u8], lo: usize, hi: usize, b: u8) -> (j: usize)
    requires
        lo <= hi <= s@.len(),
    ensures
        lo <= j <= hi,
        j - lo == find_byte(s@.subrange(lo as int, hi as int), b),
    decreases hi - lo,
{
    let ghost sub = s@.subrange(lo as int, hi as int);
    if lo == hi {
        proof {
            assert(sub =~= Seq::<u8>::empty());
        }
        lo
    } else if s[lo] == b {
        proof {
            assert(sub[0] == b);
        }
        lo
    } else {
        proof {
            assert(sub[0] != b);
            assert(sub.skip(1) =~= s@.subrange(lo as int + 1, hi as int));
        }
        find_byte_exec(s, lo + 1, hi, b)
    }
}

fn is_url_key(k: &Vec<u8>) -> (r: bool)
    ensures
        r == (k@ == url_key()),
{
    if k.len() == 3 {
        let r = k[0] == 117 && k[1] == 114 && k[2] == 108;
        proof {
            if r {
                assert(k@ =~= url_key());
            }
        }
        r
    } else {
        false
    }
}

fn is_title_key(k: &Vec<u8>) -> (r: bool)
    ensures
        r == (k@ == title_key()),
{
    if k.len() == 5 {
        let r = k[0] == 116 && k[1] == 105 && k[2] == 116 && k[3] == 108 && k[4] == 101;
        proof {
            if r {
                assert(k@ =~= title_key());
            }
        }
        r
    } else {
        false
    }
}

fn is_notes_key(k: &Vec<u8>) -> (r: bool)
    ensures
        r == (k@ == notes_key()),
{
    if k.len() == 5 {
        let r = k[0] == 110 && k[1] == 111 && k[2] == 116 && k[3] == 101 && k[4] == 115;
        proof {
            if r {
                assert(k@ =~= notes_key());
            }
        }
        r
    } else {
        false
    }
}

fn apply_pair_exec(acc: FormFields, s: &[u8], lo: usize, hi: usize) -> (r: Option<FormFields>)
    requires
        lo <= hi <= s@.len(),
    ensures
        (match r {
            Some(a) => apply_pair(acc@, s@.subrange(lo as int, hi as int)) == Some(a@),
            None => apply_pair(acc@, s@.subrange(lo as int, hi as int)) is None,
        }),
{
    let ghost p = s@.subrange(lo as int, hi as int);
    let j = find_byte_exec(s, lo, hi, 61);
    proof {
        assert(p.take(j - lo) =~= s@.subrange(lo as int, j as int));
    }
    let key = pct_decode_exec(s, lo, j);
    let value = if j == hi {
        proof {
            assert(j - lo == p.len());
            assert(s@.subrange(j as int, j as int) =~= Seq::<u8>::empty());
        }
        pct_decode_exec(s, j, j)
    } else {
        proof {
            assert(p.skip(j - lo + 1) =~= s@.subrange(j as int + 1, hi as int));
        }
        pct_decode_exec(s, j + 1, hi)
    };
    match (key, value) {
        (Some(k), Some(v)) => {
            if is_url_key(&k) {
                if acc.url.is_some() {
                    None
                } else {
                    Some(FormFields { url: Some(v), ..acc })
                }
            } else if is_title_key(&k) {
                if acc.title.is_some() {
                    None
                } else {
                    Some(FormFields { title: Some(v), ..acc })
                }
            } else if is_notes_key(&k) {
                if acc.notes.is_some() {
                    None
                } else {
                    Some(FormFields { notes: Some(v), ..acc })
                }
            } else {
                Some(acc)
            }
        },
        _ => None,
    }
}

fn parse_pairs_exec(s: &[u8], lo: usize, acc: FormFields) -> (r: Option<FormFields>)
    requires
        lo <= s@.len(),
    ensures
        (match r {
            Some(a) => parse_pairs(s@.skip(lo as int), acc@) == Some(a@),
            None => parse_pairs(s@.skip(lo as int), acc@) is None,
        }),
    decreases s@.len() - lo,
{
    let ghost rem = s@.skip(lo as int);
    let n = s.len();
    let j = find_byte_exec(s, lo, n, 38);
    proof {
        assert(rem =~= s@.subrange(lo as int, n as int));
        lemma_find_byte_range(rem, 38);
        assert(rem.take(j - lo) =~= s@.subrange(lo as int, j as int));
    }
    let folded = if lo == j {
        Some(acc)
    } else {
        apply_pair_exec(acc, s, lo, j)
    };
    if j == n {
        folded
    } else {
        proof {
            assert(rem.skip(j - lo + 1) =~= s@.skip(j as int + 1));
        }
        match folded {
            Some(a) => parse_pairs_exec(s, j + 1, a),
            None => None,
        }
    }
}

/// Decode a form-encoded body into its url, title and notes values.
/// Exactly the bodies in which each of the three fields stands once, with
/// well-formed escapes throughout, decode; everything else is invalid
/// input. In particular a body that lacks one of the fields never decodes.
pub fn parse_entry_form(body: &[u8]) -> (r: Result<EntryFormFields, DbError>)
    ensures
        (match r {
            Ok(f) => parse_form_spec(body@) == Some((f.url@, f.title@, f.notes@)),
            Err(e) => parse_form_spec(body@) is None && e == DbError::InvalidInput,
        }),
{
    let start = FormFields { url: None, title: None, notes: None };
    proof {
        assert(body@.skip(0) =~= body@);
    }
    match parse_pairs_exec(body, 0, start) {
        Some(a) => match (a.url, a.title, a.notes) {
            (Some(url), Some(title), Some(notes)) => Ok(EntryFormFields { url, title, notes }),
            _ => Err(DbError::InvalidInput),
        },
        None => Err(DbError::InvalidInput),
    }
}

} // verus!
