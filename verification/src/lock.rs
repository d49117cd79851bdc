use vstd::prelude::*;
use vstd::string::*;
use vstd::utf8::*;

use crate::bytes::{
    find_from, lemma_after_ascii, lemma_find_from, lemma_trim_bounds, slice_str, spec_find_from,
    spec_trim_end, spec_trim_start, trim_end, trim_start,
};

verus! {

broadcast use vstd::utf8::encode_utf8_valid_utf8;

/// The byte ranges, within `b`, of the entries of the list from `start` to
/// `end`: the list is cut at each `,`, and a piece that, without surrounding
/// whitespace, is a quoted text gives the text between its quotes; other
/// pieces (such as the empty one after a trailing comma) give nothing
pub open spec fn spec_lock_entries(b: Seq<u8>, start: int, end: int) -> Seq<(int, int)>
    decreases end - start,
{
    if start < 0 || start > end || end > b.len() {
        Seq::empty()
    } else {
        let pe = match spec_find_from(b.take(end), seq![0x2cu8], start) {
            Some(j) => j,
            None => end,
        };
        proof {
            lemma_find_from(b.take(end), seq![0x2cu8], start);
        }
        let ta = spec_trim_start(b, start, pe);
        let te = spec_trim_end(b, ta, pe);
        let this = if te - ta >= 2 && b[ta] == 34 && b[te - 1] == 34 {
            seq![(ta + 1, te - 1)]
        } else {
            Seq::empty()
        };
        if pe >= end {
            this
        } else {
            this + spec_lock_entries(b, pe + 1, end)
        }
    }
}

/// The byte ranges of the dependencies that a lock section lists: the
/// entries ([`spec_lock_entries`]) between the `[` after `dependencies = `
/// and the next `]`; none where there is no such list
pub open spec fn spec_lock_dependencies(b: Seq<u8>) -> Seq<(int, int)> {
    match spec_find_from(b, "dependencies = ".spec_bytes(), 0) {
        None => Seq::empty(),
        Some(start) => match spec_find_from(b, seq![0x5bu8], start) {
            None => Seq::empty(),
            Some(open) => match spec_find_from(b, seq![0x5du8], open) {
                None => Seq::empty(),
                Some(close) => spec_lock_entries(b, open + 1, close),
            },
        },
    }
}

/// Given the lock section of a crate, extract the dependencies: the quoted
/// names in the list of `dependencies = [...]`
pub fn get_dependencies_of_crate_from_lock_section(section: &str) -> (r: Vec<&str>)
    ensures
        r@.len() == spec_lock_dependencies(section.spec_bytes()).len(),
        forall|i: int|
            0 <= i < r@.len() ==> (#[trigger] r@[i]).spec_bytes() == section.spec_bytes().subrange(
                spec_lock_dependencies(section.spec_bytes())[i].0,
                spec_lock_dependencies(section.spec_bytes())[i].1,
            ),
{
    let ghost gb = section.spec_bytes();
    let b = section.as_bytes();
    let n = b.len();
    let to_find = "dependencies = ".as_bytes();
    assert(gb.take(n as int) =~= gb);
    proof {
        lemma_find_from(gb, "dependencies = ".spec_bytes(), 0);
    }
    let start = match find_from(b, to_find, 0, n) {
        Some(s) => s,
        None => return Vec::new(),
    };
    let open_b: [u8; 1] = [0x5bu8];
    assert(open_b@ =~= seq![0x5bu8]);
    proof {
        lemma_find_from(gb, seq![0x5bu8], start as int);
    }
    let open = match find_from(b, &open_b, start, n) {
        Some(e) => e,
        None => return Vec::new(),
    };
    let close_b: [u8; 1] = [0x5du8];
    assert(close_b@ =~= seq![0x5du8]);
    proof {
        lemma_find_from(gb, seq![0x5du8], open as int);
    }
    let close = match find_from(b, &close_b, open, n) {
        Some(e) => e,
        None => return Vec::new(),
    };
    assert(gb.subrange(open as int, open + 1)[0] == gb[open as int]);
    let ghost all = spec_lock_dependencies(gb);
    assert(all == spec_lock_entries(gb, open + 1, close as int));
    let mut out: Vec<&str> = Vec::new();
    let ghost mut got: Seq<(int, int)> = Seq::empty();
    let mut ps = open + 1;
    loop
        invariant
            b@ == gb,
            gb == section.spec_bytes(),
            n == gb.len(),
            open + 1 <= ps <= close,
            close < n,
            all == spec_lock_dependencies(gb),
            all == got + spec_lock_entries(gb, ps as int, close as int),
            out@.len() == got.len(),
            forall|i: int|
                0 <= i < out@.len() ==> (#[trigger] out@[i]).spec_bytes() == gb.subrange(
                    got[i].0,
                    got[i].1,
                ),
        decreases close - ps,
    {
        let comma: [u8; 1] = [0x2cu8];
        assert(comma@ =~= seq![0x2cu8]);
        proof {
            lemma_find_from(gb.take(close as int), seq![0x2cu8], ps as int);
        }
        let pe = match find_from(b, &comma, ps, close) {
            Some(j) => j,
            None => close,
        };
        proof {
            lemma_trim_bounds(gb, ps as int, pe as int);
        }
        let ta = trim_start(b, ps, pe);
        proof {
            lemma_trim_bounds(gb, ta as int, pe as int);
        }
        let te = trim_end(b, ta, pe);
        let ghost this: Seq<(int, int)> = if te - ta >= 2 && gb[ta as int] == 34 && gb[te - 1]
            == 34 {
            seq![(ta + 1, te - 1)]
        } else {
            Seq::empty()
        };
        let ghost rest = if pe >= close {
            Seq::<(int, int)>::empty()
        } else {
            spec_lock_entries(gb, pe + 1, close as int)
        };
        assert(spec_lock_entries(gb, ps as int, close as int) == this + rest);
        if te - ta >= 2 && b[ta] == 34 && b[te - 1] == 34 {
            proof {
                lemma_after_ascii(gb, ta as int);
            }
            let piece = slice_str(section, ta + 1, te - 1);
            let ghost before = out@;
            out.push(piece);
            proof {
                got = got.push((ta + 1, te - 1));
                assert(forall|i: int| 0 <= i < before.len() ==> out@[i] == before[i]);
            }
        }
        assert(all == got + rest);
        if pe >= close {
            assert(all == got);
            return out;
        }
        ps = pe + 1;
    }
}

/// The bytes of `[[package]]`
pub open spec fn spec_package_header() -> Seq<u8> {
    seq![91u8, 91u8, 112u8, 97u8, 99u8, 107u8, 97u8, 103u8, 101u8, 93u8, 93u8]
}

/// The bytes of the header line of the package `name` followed by the start of its name line
pub open spec fn spec_package_entry(name: Seq<u8>) -> Seq<u8> {
    seq![91u8, 91u8, 112u8, 97u8, 99u8, 107u8, 97u8, 103u8, 101u8, 93u8, 93u8, 10u8, 110u8, 97u8, 109u8, 101u8, 32u8, 61u8, 32u8, 34u8] + name + seq![34u8]
}

/// The bytes of the name line of the package `name`
pub open spec fn spec_package_name_line(name: Seq<u8>) -> Seq<u8> {
    seq![110u8, 97u8, 109u8, 101u8, 32u8, 61u8, 32u8, 34u8] + name + seq![34u8]
}

/// `a` followed by `b`, as bytes
fn concat_bytes(a: &[u8], b: &[u8]) -> (r: Vec<u8>)
    ensures
        r@ == a@ + b@,
{
    let mut r: Vec<u8> = Vec::new();
    let mut i: usize = 0;
    while i < a.len()
        invariant
            i <= a@.len(),
            r@ == a@.take(i as int),
        decreases a@.len() - i,
    {
        r.push(a[i]);
        assert(a@.take(i + 1) =~= a@.take(i as int).push(a@[i as int]));
        i = i + 1;
    }
    let mut j: usize = 0;
    while j < b.len()
        invariant
            i == a@.len(),
            j <= b@.len(),
            r@ == a@ + b@.take(j as int),
        decreases b@.len() - j,
    {
        r.push(b[j]);
        assert(b@.take(j + 1) =~= b@.take(j as int).push(b@[j as int]));
        j = j + 1;
    }
    assert(a@.take(i as int) =~= a@);
    assert(b@.take(j as int) =~= b@);
    r
}

/// The byte range of the section about `crate_name` in the lock file `b`:
/// from its `[[package]]` header, whose next line names the crate, up to the
/// next `[[package]]` header or the end; `None` where the crate has no entry
pub open spec fn spec_section_about_crate(b: Seq<u8>, crate_name: Seq<u8>) -> Option<(int, int)> {
    match spec_find_from(b, spec_package_entry(crate_name), 0) {
        None => None,
        Some(start) => Some(
            (
                start,
                match spec_find_from(b, spec_package_header(), start + 1) {
                    Some(e) => e,
                    None => b.len() as int,
                },
            ),
        ),
    }
}

/// Get the section about a specific crate: its `[[package]]` entry, up to
/// the next one
pub fn get_section_about_crate<'a>(file: &'a str, crate_name: &str) -> (r: Option<&'a str>)
    ensures
        match spec_section_about_crate(file.spec_bytes(), crate_name.spec_bytes()) {
            Some((s, e)) => r matches Some(x) && x.spec_bytes() == file.spec_bytes().subrange(s, e),
            None => r is None,
        },
{
    let ghost gb = file.spec_bytes();
    let b = file.as_bytes();
    let n = b.len();
    let hdr: [u8; 20] = [91u8, 91u8, 112u8, 97u8, 99u8, 107u8, 97u8, 103u8, 101u8, 93u8, 93u8, 10u8, 110u8, 97u8, 109u8, 101u8, 32u8, 61u8, 32u8, 34u8];
    let quote: [u8; 1] = [34u8];
    let head = concat_bytes(&hdr, crate_name.as_bytes());
    let to_search = concat_bytes(head.as_slice(), &quote);
    assert(to_search@ =~= spec_package_entry(crate_name.spec_bytes()));
    assert(gb.take(n as int) =~= gb);
    proof {
        lemma_find_from(gb, spec_package_entry(crate_name.spec_bytes()), 0);
    }
    let start = match find_from(b, to_search.as_slice(), 0, n) {
        Some(s) => s,
        None => return None,
    };
    assert(gb.subrange(start as int, start + to_search@.len())[0] == gb[start as int]);
    let pkg: [u8; 11] = [91u8, 91u8, 112u8, 97u8, 99u8, 107u8, 97u8, 103u8, 101u8, 93u8, 93u8];
    assert(pkg@ =~= spec_package_header());
    proof {
        lemma_find_from(gb, spec_package_header(), start + 1);
    }
    let end = match find_from(b, &pkg, start + 1, n) {
        Some(e) => e,
        None => n,
    };
    if end < n {
        assert(gb.subrange(end as int, end + pkg@.len())[0] == gb[end as int]);
    }
    Some(slice_str(file, start, end))
}

/// The byte range of the information about `package_name` in the lock file
/// `b`: from its name line up to the byte before the next `[[package]]`
/// header, or before the last byte; `None` where the package has no name line
pub open spec fn spec_package_info(b: Seq<u8>, package_name: Seq<u8>) -> Option<(int, int)> {
    match spec_find_from(b, spec_package_name_line(package_name), 0) {
        None => None,
        Some(start) => Some(
            (
                start,
                match spec_find_from(b, spec_package_header(), start) {
                    Some(e) => e - 1,
                    None => b.len() - 1,
                },
            ),
        ),
    }
}

/// Given a lock file, get the info about the requested crate
pub fn get_package_info_from_lock<'a>(lock: &'a str, package_name: &str) -> (r: Option<&'a str>)
    requires
        spec_package_info(lock.spec_bytes(), package_name.spec_bytes()) matches Some((s, e)) ==> !is_continuation_byte(lock.spec_bytes()[e]),
    ensures
        match spec_package_info(lock.spec_bytes(), package_name.spec_bytes()) {
            Some((s, e)) => r matches Some(x) && x.spec_bytes() == lock.spec_bytes().subrange(s, e),
            None => r is None,
        },
{
    let ghost gb = lock.spec_bytes();
    let b = lock.as_bytes();
    let n = b.len();
    let nm: [u8; 8] = [110u8, 97u8, 109u8, 101u8, 32u8, 61u8, 32u8, 34u8];
    let quote: [u8; 1] = [34u8];
    let head = concat_bytes(&nm, package_name.as_bytes());
    let to_find = concat_bytes(head.as_slice(), &quote);
    assert(to_find@ =~= spec_package_name_line(package_name.spec_bytes()));
    assert(gb.take(n as int) =~= gb);
    proof {
        lemma_find_from(gb, spec_package_name_line(package_name.spec_bytes()), 0);
    }
    let start = match find_from(b, to_find.as_slice(), 0, n) {
        Some(s) => s,
        None => return None,
    };
    assert(gb.subrange(start as int, start + to_find@.len())[0] == gb[start as int]);
    let pkg: [u8; 11] = [91u8, 91u8, 112u8, 97u8, 99u8, 107u8, 97u8, 103u8, 101u8, 93u8, 93u8];
    assert(pkg@ =~= spec_package_header());
    proof {
        lemma_find_from(gb, spec_package_header(), start as int);
    }
    let end = match find_from(b, &pkg, start, n) {
        Some(e) => e,
        None => n,
    };
    if end < n {
        assert(gb.subrange(end as int, end + pkg@.len())[0] == gb[end as int]);
        assert(gb.subrange(start as int, start + to_find@.len())[0] != gb.subrange(end as int, end + pkg@.len())[0]);
    }
    Some(slice_str(lock, start, end - 1))
}

} // verus!
