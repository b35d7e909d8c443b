//! Path strings: joining components the way a Unix `PathBuf::push` does,
//! home-directory shorthand expansion, and search-directory lists.

use vstd::prelude::*;

verus! {

/// Joining `part` onto `base`: an absolute `part` replaces `base`, an empty
/// `base` gives `part`, and otherwise a single separator stands between them
/// unless `base` already ends with one.
pub open spec fn join_spec(base: Seq<char>, part: Seq<char>) -> Seq<char> {
    if part.len() > 0 && part[0] == '/' {
        part
    } else if base.len() == 0 {
        part
    } else if base.last() == '/' {
        base + part
    } else {
        base + seq!['/'] + part
    }
}

/// `s` with every trailing `/` removed.
pub open spec fn trim_trailing_slashes(s: Seq<char>) -> Seq<char>
    decreases s.len(),
{
    if s.len() > 0 && s.last() == '/' {
        trim_trailing_slashes(s.drop_last())
    } else {
        s
    }
}

/// The pieces of `s` between its `:` separators, in order; an empty string
/// is one empty piece, and `n` separators always give `n + 1` pieces.
pub open spec fn split_colons(s: Seq<char>) -> Seq<Seq<char>>
    decreases s.len(),
{
    if s.len() == 0 {
        seq![Seq::empty()]
    } else {
        let prev = split_colons(s.drop_last());
        if s.last() == ':' {
            prev.push(Seq::empty())
        } else {
            prev.update(prev.len() - 1, prev.last().push(s.last()))
        }
    }
}

pub proof fn lemma_split_colons_nonempty(s: Seq<char>)
    ensures
        split_colons(s).len() >= 1,
    decreases s.len(),
{
    if s.len() > 0 {
        lemma_split_colons_nonempty(s.drop_last());
    }
}

/// The home-relative shorthand `~/rest` read against `home`; any other path,
/// or any path when no home directory is known, is left as it is.
pub open spec fn expand_tilde_spec(path: Seq<char>, home: Option<Seq<char>>) -> Seq<char> {
    if path.len() >= 2 && path[0] == '~' && path[1] == '/' && home is Some {
        join_spec(home->0, path.subrange(2, path.len() as int))
    } else {
        path
    }
}

/// The icon directory under one data directory: trailing separators are
/// dropped and `/icons` is appended.
pub open spec fn icons_under(data_dir: Seq<char>) -> Seq<char> {
    trim_trailing_slashes(data_dir) + "/icons"@
}

/// The icon directories derived from a colon-separated data-directory list,
/// one for each piece, in order.
pub open spec fn icon_dirs_from_list(list: Seq<char>) -> Seq<Seq<char>> {
    split_colons(list).map_values(|d: Seq<char>| icons_under(d))
}

/// Joins `part` onto `base` as a path.
pub fn join_path(base: &str, part: &str) -> (r: String)
    ensures
        r@ == join_spec(base@, part@),
{
    let plen: usize = part.unicode_len();
    let blen: usize = base.unicode_len();
    if plen > 0 && part.get_char(0) == '/' {
        return part.to_owned();
    }
    if blen == 0 {
        return part.to_owned();
    }
    let mut r = base.to_owned();
    if base.get_char(blen - 1) != '/' {
        r.append("/");
        proof {
            reveal_strlit("/");
        }
    }
    r.append(part);
    proof {
        if base@.last() != '/' {
            assert(r@ =~= base@ + seq!['/'] + part@);
        }
    }
    r
}

/// Expands a leading `~/` against the home directory, when one is known.
pub fn expand_tilde(path: &str, home: Option<&str>) -> (r: String)
    ensures
        r@ == expand_tilde_spec(path@, match home {
            Some(h) => Some(h@),
            None => None,
        }),
{
    let n: usize = path.unicode_len();
    if n >= 2 && path.get_char(0) == '~' && path.get_char(1) == '/' {
        if let Some(h) = home {
            let rest = path.substring_char(2, n);
            return join_path(h, rest);
        }
    }
    path.to_owned()
}

/// `s` without its trailing `/` characters.
pub fn trim_slashes_end(s: &str) -> (r: &str)
    ensures
        r@ == trim_trailing_slashes(s@),
{
    let mut end: usize = s.unicode_len();
    assert(s@.subrange(0, end as int) =~= s@);
    while end > 0 && s.get_char(end - 1) == '/'
        invariant
            end <= s@.len(),
            trim_trailing_slashes(s@.subrange(0, end as int)) == trim_trailing_slashes(s@),
        decreases end,
    {
        assert(s@.subrange(0, end as int).drop_last() =~= s@.subrange(0, end - 1));
        assert(s@.subrange(0, end as int).last() == s@[end - 1]);
        end = end - 1;
    }
    s.substring_char(0, end)
}

/// Splits `s` at each `:`.
pub fn split_colon_list(s: &str) -> (r: Vec<String>)
    ensures
        r@.map_values(|p: String| p@) == split_colons(s@),
{
    let n: usize = s.unicode_len();
    let mut parts: Vec<String> = Vec::new();
    let mut start: usize = 0;
    let mut i: usize = 0;
    assert(s@.subrange(0, 0) =~= Seq::<char>::empty());
    assert(parts@.map_values(|p: String| p@).push(s@.subrange(0, 0)) =~= split_colons(
        s@.subrange(0, 0),
    ));
    while i < n
        invariant
            n == s@.len(),
            start <= i <= n,
            parts@.map_values(|p: String| p@).push(s@.subrange(start as int, i as int))
                == split_colons(s@.subrange(0, i as int)),
        decreases n - i,
    {
        let c = s.get_char(i);
        let ghost before = s@.subrange(0, i as int);
        let ghost after = s@.subrange(0, i + 1);
        let ghost old_parts = parts@.map_values(|p: String| p@);
        let ghost prev = split_colons(before);
        assert(after.drop_last() =~= before);
        assert(after.last() == c);
        proof {
            lemma_split_colons_nonempty(before);
        }
        if c == ':' {
            let piece = s.substring_char(start, i);
            let owned = piece.to_owned();
            parts.push(owned);
            assert(parts@.map_values(|p: String| p@) =~= old_parts.push(
                s@.subrange(start as int, i as int),
            ));
            start = i + 1;
            assert(s@.subrange(start as int, i + 1) =~= Seq::<char>::empty());
            assert(split_colons(after) == prev.push(Seq::empty()));
            assert(parts@.map_values(|p: String| p@).push(s@.subrange(start as int, i + 1))
                =~= split_colons(after));
        } else {
            assert(s@.subrange(start as int, i + 1) =~= s@.subrange(start as int, i as int).push(c));
            assert(split_colons(after) == prev.update(prev.len() - 1, prev.last().push(c)));
            assert(parts@.map_values(|p: String| p@).push(s@.subrange(start as int, i + 1))
                =~= split_colons(after));
        }
        i = i + 1;
    }
    let last = s.substring_char(start, n);
    parts.push(last.to_owned());
    assert(s@.subrange(0, n as int) =~= s@);
    assert(parts@.map_values(|p: String| p@) =~= split_colons(s@));
    parts
}

/// The icon directories named by a colon-separated data-directory list: each
/// entry without its trailing separators, followed by `/icons`.
pub fn icon_dirs_from_data_dirs(list: &str) -> (r: Vec<String>)
    ensures
        r@.map_values(|p: String| p@) == icon_dirs_from_list(list@),
{
    let parts = split_colon_list(list);
    let mut out: Vec<String> = Vec::new();
    let mut i: usize = 0;
    while i < parts.len()
        invariant
            i <= parts@.len(),
            parts@.map_values(|p: String| p@) == split_colons(list@),
            out@.map_values(|p: String| p@) =~= split_colons(list@).subrange(
                0,
                i as int,
            ).map_values(|d: Seq<char>| icons_under(d)),
        decreases parts@.len() - i,
    {
        let trimmed = trim_slashes_end(parts[i].as_str());
        let mut dir = trimmed.to_owned();
        dir.append("/icons");
        proof {
            reveal_strlit("/icons");
            assert(parts@.map_values(|p: String| p@)[i as int] == parts@[i as int]@);
            assert(dir@ == icons_under(split_colons(list@)[i as int]));
        }
        let ghost old_out = out@.map_values(|p: String| p@);
        out.push(dir);
        assert(out@.map_values(|p: String| p@) =~= old_out.push(
            icons_under(split_colons(list@)[i as int]),
        ));
        assert(out@.map_values(|p: String| p@) =~= split_colons(list@).subrange(
            0,
            i + 1,
        ).map_values(|d: Seq<char>| icons_under(d)));
        i = i + 1;
    }
    assert(split_colons(list@).subrange(0, parts@.len() as int) =~= split_colons(list@));
    out
}

} // verus!
