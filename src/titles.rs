use vstd::prelude::*;
use vstd::string::*;
use crate::catalog::{Catalog, Slice};
use crate::text::{chars_of, decimal_text, decimal_unsigned, push_char, ends_with, ends_with_chars, string_of_range, trim_str, trimmed};

verus! {

// Titles derived from file names for slices that have none.

/// What regex finds as the first match of `\d{8}` (eight digits in a row)
/// in `s`, if any.
pub uninterp spec fn eight_digit_match(s: Seq<char>) -> Option<Seq<char>>;

/// Relies on regex's `Regex::find` with the pattern `\d{8}`: the leftmost
/// match, as text; it depends on the haystack alone.
#[verifier::external_body]
fn find_eight_digits(s: &str) -> (r: Option<String>)
    ensures
        match eight_digit_match(s@) {
            Some(m) => r is Some && r.unwrap()@ == m,
            None => r is None,
        },
{
    let re = regex::Regex::new(r"\d{8}").unwrap();
    match re.find(s) {
        Some(m) => Some(m.as_str().to_string()),
        None => None,
    }
}

/// `s` with every trailing copy of `suffix` removed.
pub open spec fn strip_all(s: Seq<char>, suffix: Seq<char>) -> Seq<char>
    decreases s.len(),
{
    if suffix.len() > 0 && ends_with(s, suffix) {
        strip_all(s.subrange(0, s.len() - suffix.len()), suffix)
    } else {
        s
    }
}

/// A file name without its audio extensions.
pub open spec fn without_audio_extensions(name: Seq<char>) -> Seq<char> {
    strip_all(strip_all(strip_all(name, ".m4a"@), ".wav"@), ".mp3"@)
}

pub open spec fn all_ascii_digits(s: Seq<char>) -> bool {
    forall|i: int| 0 <= i < s.len() ==> '0' <= #[trigger] s[i] <= '9'
}

/// The title a file name suggests: the first eight-digit date in it as
/// `YYYY-MM-DD`, else the name without its audio extensions.
pub open spec fn derived_title(name: Seq<char>) -> Seq<char> {
    match eight_digit_match(name) {
        Some(m) => if m.len() == 8 && all_ascii_digits(m) {
            m.subrange(0, 4) + seq!['-'] + m.subrange(4, 6) + seq!['-'] + m.subrange(6, 8)
        } else {
            without_audio_extensions(name)
        },
        None => without_audio_extensions(name),
    }
}

fn strip_all_exec(s: String, suffix: &str) -> (r: String)
    ensures
        r@ == strip_all(s@, suffix@),
{
    let suf = chars_of(suffix);
    let cs = chars_of(s.as_str());
    let mut end: usize = cs.len();
    assert(cs@.subrange(0, cs@.len() as int) =~= cs@);
    while suf.len() > 0 && suf.len() <= end && ends_with_chars(&string_chars(&cs, end), &suf)
        invariant
            end <= cs@.len(),
            suf@ == suffix@,
            cs@ == s@,
            strip_all(s@, suffix@) == strip_all(cs@.subrange(0, end as int), suffix@),
        decreases end,
    {
        proof {
            let cur = cs@.subrange(0, end as int);
            assert(cur.subrange(0, cur.len() - suf@.len()) =~= cs@.subrange(0, end - suf@.len()));
        }
        end = end - suf.len();
    }
    proof {
        let cur = cs@.subrange(0, end as int);
        assert(!(suf@.len() > 0 && ends_with(cur, suf@)));
    }
    string_of_range(&cs, 0, end)
}

/// The first `end` characters, as their own vector.
fn string_chars(cs: &Vec<char>, end: usize) -> (r: Vec<char>)
    requires
        end <= cs@.len(),
    ensures
        r@ == cs@.subrange(0, end as int),
{
    let mut out: Vec<char> = Vec::new();
    let mut i: usize = 0;
    while i < end
        invariant
            i <= end <= cs@.len(),
            out@ == cs@.subrange(0, i as int),
        decreases end - i,
    {
        out.push(cs[i]);
        proof {
            assert(out@ =~= cs@.subrange(0, i as int + 1));
        }
        i += 1;
    }
    out
}

/// The title suggested for a slice stored under `name`.
pub fn title_from_file_name(name: &str) -> (r: String)
    ensures
        r@ == derived_title(name@),
{
    match find_eight_digits(name) {
        Some(m) => {
            let d = chars_of(m.as_str());
            let ghost found = eight_digit_match(name@);
            assert(found is Some && found.unwrap() == d@);
            let mut ok = d.len() == 8;
            let mut i: usize = 0;
            while ok && i < d.len()
                invariant
                    i <= d@.len(),
                    found == eight_digit_match(name@),
                    found is Some && found.unwrap() == d@,
                    ok ==> d@.len() == 8,
                    ok ==> forall|k: int| 0 <= k < i ==> '0' <= #[trigger] d@[k] <= '9',
                    !ok ==> !(d@.len() == 8 && all_ascii_digits(d@)),
                decreases d@.len() - i,
            {
                if !('0' <= d[i] && d[i] <= '9') {
                    ok = false;
                }
                i += 1;
            }
            if ok {
                let mut out = string_of_range(&d, 0, 4);
                push_char(&mut out, '-');
                out.append(string_of_range(&d, 4, 6).as_str());
                push_char(&mut out, '-');
                out.append(string_of_range(&d, 6, 8).as_str());
                proof {
                    assert(out@ =~= d@.subrange(0, 4) + seq!['-'] + d@.subrange(4, 6) + seq!['-']
                        + d@.subrange(6, 8));
                }
                return out;
            }
        },
        None => {},
    }
    let a = strip_all_exec(String::from_str(name), ".m4a");
    let b = strip_all_exec(a, ".wav");
    strip_all_exec(b, ".mp3")
}

/// `t` numbered `n`, as in `Title (2)`.
pub open spec fn numbered(base: Seq<char>, n: int) -> Seq<char> {
    base + " ("@ + decimal_text(n) + ")"@
}

pub open spec fn contains_text(used: Seq<Seq<char>>, t: Seq<char>) -> bool {
    exists|i: int| 0 <= i < used.len() && used[i] == t
}

/// The first of `base (n)`, `base (n + 1)`, ... not in `used`, trying `fuel + 1` numbers.
pub open spec fn free_numbered(base: Seq<char>, used: Seq<Seq<char>>, n: int, fuel: nat) -> Option<Seq<char>>
    decreases fuel,
{
    if !contains_text(used, numbered(base, n)) {
        Some(numbered(base, n))
    } else if fuel == 0 {
        None
    } else {
        free_numbered(base, used, n + 1, (fuel - 1) as nat)
    }
}

/// `base` if unused, else the first free numbered form of it.
pub open spec fn fresh_title(base: Seq<char>, used: Seq<Seq<char>>) -> Option<Seq<char>> {
    if !contains_text(used, base) {
        Some(base)
    } else {
        free_numbered(base, used, 2, used.len())
    }
}

/// A slice whose title is set and not blank.
pub open spec fn has_real_title(s: Slice) -> bool {
    s.title is Some && trimmed(s.title.unwrap()@).len() > 0
}

pub open spec fn title_view(t: Option<String>) -> Option<Seq<char>> {
    match t {
        Some(s) => Some(s@),
        None => None,
    }
}

/// The titles after the pass over `v`, and the titles in use by then.
pub open spec fn titles_after(v: Seq<Slice>) -> (Seq<Option<Seq<char>>>, Seq<Seq<char>>)
    decreases v.len(),
{
    if v.len() == 0 {
        (Seq::empty(), Seq::empty())
    } else {
        let (ts, used) = titles_after(v.drop_last());
        let s = v.last();
        if has_real_title(s) {
            (ts.push(title_view(s.title)), used.push(s.title.unwrap()@))
        } else {
            match fresh_title(derived_title(s.original_audio_file_name@), used) {
                Some(t) => (ts.push(Some(t)), used.push(t)),
                None => (ts.push(title_view(s.title)), used),
            }
        }
    }
}

/// How many slices the pass over `v` gives a title.
pub open spec fn titled_count(v: Seq<Slice>) -> int
    decreases v.len(),
{
    if v.len() == 0 {
        0
    } else {
        let used = titles_after(v.drop_last()).1;
        let s = v.last();
        titled_count(v.drop_last()) + if !has_real_title(s) && fresh_title(
            derived_title(s.original_audio_file_name@),
            used,
        ) is Some {
            1int
        } else {
            0int
        }
    }
}

fn contains_string(used: &Vec<String>, t: &String) -> (r: bool)
    ensures
        r == contains_text(used@.map_values(|s: String| s@), t@),
{
    let ghost uv = used@.map_values(|s: String| s@);
    let mut i: usize = 0;
    while i < used.len()
        invariant
            i <= used@.len(),
            uv == used@.map_values(|s: String| s@),
            forall|k: int| 0 <= k < i ==> uv[k] != t@,
        decreases used@.len() - i,
    {
        if used[i] == *t {
            assert(uv[i as int] == t@);
            return true;
        }
        i += 1;
    }
    false
}

/// The title to give when `base` is suggested and `used` are taken.
fn pick_title(base: String, used: &Vec<String>) -> (r: Option<String>)
    ensures
        title_view(r) == fresh_title(base@, used@.map_values(|s: String| s@)),
{
    let ghost uv = used@.map_values(|s: String| s@);
    if !contains_string(used, &base) {
        return Some(base);
    }
    let len = used.len();
    assert(used@.len() <= u64::MAX);
    let mut n: u128 = 2;
    let mut fuel: u128 = len as u128;
    loop
        invariant
            uv == used@.map_values(|s: String| s@),
            n as int + fuel as int == used@.len() + 2,
            used@.len() <= u64::MAX,
            fresh_title(base@, uv) == free_numbered(base@, uv, n as int, fuel as nat),
        decreases fuel,
    {
        let mut cand = base.clone();
        cand.append(" (");
        let digits = decimal_unsigned(n);
        cand.append(digits.as_str());
        cand.append(")");
        assert(cand@ =~= numbered(base@, n as int));
        if !contains_string(used, &cand) {
            return Some(cand);
        }
        if fuel == 0 {
            return None;
        }
        n = n + 1;
        fuel = fuel - 1;
    }
}

/// Gives each slice without a (non-blank) title the one its file name
/// suggests, numbered `(2)`, `(3)`, ... where taken by an earlier slice.
/// Returns how many slices were given a title.
pub fn auto_populate_titles(catalog: &mut Catalog) -> (r: u32)
    requires
        old(catalog).wf(),
    ensures
        final(catalog).wf(),
        final(catalog).next_id() == old(catalog).next_id(),
        final(catalog)@.len() == old(catalog)@.len(),
        forall|k: int|
            0 <= k < old(catalog)@.len() ==> #[trigger] final(catalog)@[k] == (Slice {
                title: final(catalog)@[k].title,
                ..old(catalog)@[k]
            }),
        forall|k: int|
            0 <= k < old(catalog)@.len() ==> title_view(#[trigger] final(catalog)@[k].title)
                == titles_after(old(catalog)@).0[k],
        r as int == if titled_count(old(catalog)@) > u32::MAX {
            u32::MAX as int
        } else {
            titled_count(old(catalog)@)
        },
{
    let ghost start = catalog@;
    let mut used: Vec<String> = Vec::new();
    let mut count: u32 = 0;
    let mut i: usize = 0;
    while i < catalog.len()
        invariant
            catalog.wf(),
            catalog.next_id() == old(catalog).next_id(),
            start == old(catalog)@,
            catalog@.len() == start.len(),
            i <= start.len(),
            used@.len() <= i,
            used@.map_values(|s: String| s@) == titles_after(start.subrange(0, i as int)).1,
            forall|k: int| 0 <= k < i ==> #[trigger] catalog@[k] == (Slice { title: catalog@[k].title, ..start[k] }),
            forall|k: int| 0 <= k < i ==> title_view(#[trigger] catalog@[k].title) == titles_after(start.subrange(0, i as int)).0[k],
            titles_after(start.subrange(0, i as int)).0.len() == i,
            forall|k: int| i <= k < start.len() ==> #[trigger] catalog@[k] == start[k],
            count as int == if titled_count(start.subrange(0, i as int)) > u32::MAX {
                u32::MAX as int
            } else {
                titled_count(start.subrange(0, i as int))
            },
        decreases start.len() - i,
    {
        proof {
            assert(start.subrange(0, i as int + 1).drop_last() =~= start.subrange(0, i as int));
            assert(start.subrange(0, i as int + 1).last() == start[i as int]);
        }
        let s = catalog.at(i);
        let has_title = match &s.title {
            Some(t) => trim_str(t.as_str()).as_str().unicode_len() > 0,
            None => false,
        };
        if has_title {
            let t = match &s.title {
                Some(t) => t.clone(),
                None => String::new(),
            };
            used.push(t);
            proof {
                assert(used@.map_values(|s: String| s@) =~= titles_after(start.subrange(0, i as int + 1)).1);
            }
        } else {
            let base = title_from_file_name(s.original_audio_file_name.as_str());
            match pick_title(base, &used) {
                Some(t) => {
                    let keep = t.clone();
                    catalog.set_title_at(i, Some(t));
                    used.push(keep);
                    proof {
                        assert(used@.map_values(|s: String| s@) =~= titles_after(start.subrange(0, i as int + 1)).1);
                    }
                    if count < u32::MAX {
                        count = count + 1;
                    }
                },
                None => {},
            }
        }
        i += 1;
    }
    assert(start.subrange(0, start.len() as int) =~= start);
    count
}

} // verus!
