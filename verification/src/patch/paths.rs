//! `/`-separated path handling for patch targets.
use vstd::prelude::*;

use crate::patch::error::PatchError;
use crate::text::{chars_eq, chars_of, extend_chars, join, join_chars, split_chars, split_on, string_of, views};

verus! {

/// A path piece that names something (not empty, not `.`).
pub open spec fn is_named(piece: Seq<char>) -> bool {
    piece.len() > 0 && piece != seq!['.']
}

/// The named pieces among `pieces`, in order.
pub open spec fn named_pieces(pieces: Seq<Seq<char>>) -> Seq<Seq<char>>
    decreases pieces.len(),
{
    if pieces.len() == 0 {
        Seq::empty()
    } else {
        let r = named_pieces(pieces.drop_last());
        if is_named(pieces.last()) {
            r.push(pieces.last())
        } else {
            r
        }
    }
}

/// `base` with one more component appended (`PathBuf::push` of a relative piece).
pub open spec fn push_component(base: Seq<char>, part: Seq<char>) -> Seq<char> {
    if base.len() == 0 {
        part
    } else if base.last() == '/' {
        base + part
    } else {
        base + seq!['/'] + part
    }
}

/// `base` with each of `parts` appended in turn.
pub open spec fn push_all(base: Seq<char>, parts: Seq<Seq<char>>) -> Seq<char>
    decreases parts.len(),
{
    if parts.len() == 0 {
        base
    } else {
        push_component(push_all(base, parts.drop_last()), parts.last())
    }
}

/// `rel` resolved against `base`: absolute paths are refused; otherwise each
/// named component of `rel` (`..` included) is appended to `base`.
pub open spec fn resolved(base: Seq<char>, rel: Seq<char>) -> Option<Seq<char>> {
    if rel.len() > 0 && rel[0] == '/' {
        None
    } else {
        Some(push_all(base, named_pieces(split_on(rel, '/'))))
    }
}

fn named_of(pieces: &Vec<Vec<char>>) -> (r: Vec<Vec<char>>)
    ensures
        views(r@) == named_pieces(views(pieces@)),
{
    let mut r: Vec<Vec<char>> = Vec::new();
    let mut i: usize = 0;
    let dot: Vec<char> = vec!['.'];
    while i < pieces.len()
        invariant
            i <= pieces.len(),
            dot@ == seq!['.'],
            views(r@) == named_pieces(views(pieces@).take(i as int)),
        decreases pieces.len() - i,
    {
        assert(views(pieces@).take((i + 1) as int).drop_last() =~= views(pieces@).take(i as int));
        assert(views(pieces@)[i as int] == pieces@[i as int]@);
        if pieces[i].len() > 0 && !chars_eq(pieces[i].as_slice(), dot.as_slice()) {
            let c = crate::text::copy_chars(&pieces[i]);
            let ghost prev = r@;
            r.push(c);
            proof { crate::text::lemma_views_push(prev, c); }
        }
        i += 1;
    }
    assert(views(pieces@).take(i as int) =~= views(pieces@));
    r
}

/// Resolves a patch path `rel` against the directory `base`; absolute paths
/// are refused.
pub fn resolve_relative(base: &str, rel: &str) -> (r: Result<String, PatchError>)
    ensures
        match r {
            Ok(p) => resolved(base@, rel@) == Some(p@),
            Err(e) => resolved(base@, rel@) is None && e == PatchError::AbsolutePath,
        },
{
    let rel_chars = chars_of(rel);
    if rel_chars.len() > 0 && rel_chars[0] == '/' {
        return Err(PatchError::AbsolutePath);
    }
    let pieces = split_chars(rel_chars.as_slice(), '/');
    let parts = named_of(&pieces);
    let mut out = chars_of(base);
    let mut i: usize = 0;
    while i < parts.len()
        invariant
            i <= parts.len(),
            out@ == push_all(base@, views(parts@).take(i as int)),
        decreases parts.len() - i,
    {
        assert(views(parts@).take((i + 1) as int).drop_last() =~= views(parts@).take(i as int));
        assert(views(parts@)[i as int] == parts@[i as int]@);
        if out.len() > 0 && out[out.len() - 1] != '/' {
            out.push('/');
        }
        extend_chars(&mut out, parts[i].as_slice());
        i += 1;
    }
    assert(views(parts@).take(i as int) =~= views(parts@));
    Ok(string_of(out.as_slice()))
}

/// Path components as `Path::components` yields them for `/`-separated
/// paths: a root marker for an absolute path, a `.` marker for a leading
/// `./`, then the named pieces.
pub open spec fn components(p: Seq<char>) -> Seq<Seq<char>> {
    let pieces = split_on(p, '/');
    let lead: Seq<Seq<char>> = if p.len() > 0 && p[0] == '/' {
        seq![seq!['/']]
    } else if pieces[0] == seq!['.'] {
        seq![seq!['.']]
    } else {
        Seq::empty()
    };
    lead + named_pieces(pieces)
}

/// `s` with every backslash turned into a slash.
pub open spec fn slashes(s: Seq<char>) -> Seq<char> {
    s.map_values(|c: char| if c == '\\' { '/' } else { c })
}

/// The components of `path` after those of `base`, when `base`'s
/// components begin `path`'s (`Path::strip_prefix`).
pub open spec fn stripped(path: Seq<char>, base: Seq<char>) -> Option<Seq<Seq<char>>> {
    let pc = components(path);
    let bc = components(base);
    if bc.len() <= pc.len() && pc.take(bc.len() as int) == bc {
        Some(pc.skip(bc.len() as int))
    } else {
        None
    }
}

/// `path` relative to `base` when `base`'s components begin `path`'s (the
/// rest joined with `/`), else `path` itself; backslashes become slashes.
pub open spec fn worktree_relative(path: Seq<char>, base: Seq<char>) -> Seq<char> {
    match stripped(path, base) {
        Some(rest) => slashes(join(rest, seq!['/'])),
        None => slashes(path),
    }
}

fn components_of(p: &[char]) -> (r: Vec<Vec<char>>)
    ensures
        views(r@) == components(p@),
{
    let pieces = split_chars(p, '/');
    proof { crate::text::lemma_split_on_nonempty(p@, '/'); }
    assert(views(pieces@)[0] == pieces@[0]@);
    let named = named_of(&pieces);
    let dot: Vec<char> = vec!['.'];
    assert(dot@ =~= seq!['.']);
    let mut r: Vec<Vec<char>> = Vec::new();
    let ghost lead_spec: Seq<Seq<char>> = if p@.len() > 0 && p@[0] == '/' {
        seq![seq!['/']]
    } else if split_on(p@, '/')[0] == seq!['.'] {
        seq![seq!['.']]
    } else {
        Seq::empty()
    };
    if p.len() > 0 && p[0] == '/' {
        let slash: Vec<char> = vec!['/'];
        assert(slash@ =~= seq!['/']);
        r.push(slash);
    } else if chars_eq(pieces[0].as_slice(), dot.as_slice()) {
        let d: Vec<char> = vec!['.'];
        assert(d@ =~= seq!['.']);
        r.push(d);
    }
    let ghost lead = views(r@);
    assert(lead =~= lead_spec);
    let mut i: usize = 0;
    while i < named.len()
        invariant
            i <= named.len(),
            views(r@) == lead + views(named@).take(i as int),
        decreases named.len() - i,
    {
        let c = crate::text::copy_chars(&named[i]);
        let ghost prev = r@;
        r.push(c);
        proof {
            crate::text::lemma_views_push(prev, c);
            assert(views(named@)[i as int] == named@[i as int]@);
            assert(views(named@).take((i + 1) as int) =~= views(named@).take(i as int).push(views(named@)[i as int]));
        }
        i += 1;
    }
    assert(views(named@).take(i as int) =~= views(named@));
    assert(views(r@) =~= components(p@));
    r
}

fn to_slashes(s: &[char]) -> (r: Vec<char>)
    ensures
        r@ == slashes(s@),
{
    let mut r: Vec<char> = Vec::new();
    let mut i: usize = 0;
    while i < s.len()
        invariant
            i <= s.len(),
            r@ == slashes(s@.take(i as int)),
        decreases s.len() - i,
    {
        r.push(if s[i] == '\\' { '/' } else { s[i] });
        i += 1;
        assert(r@ =~= slashes(s@.take(i as int)));
    }
    assert(s@.take(i as int) =~= s@);
    r
}

/// The components of `path` that follow those of `base`, if `base`'s
/// components begin `path`'s.
pub fn strip_path_prefix(path: &str, base: &str) -> (r: Option<Vec<Vec<char>>>)
    ensures
        match r {
            Some(rest) => stripped(path@, base@) == Some(views(rest@)),
            None => stripped(path@, base@) is None,
        },
{
    let pc = components_of(chars_of(path).as_slice());
    let bc = components_of(chars_of(base).as_slice());
    let mut is_prefix = bc.len() <= pc.len();
    let mut k: usize = 0;
    while is_prefix && k < bc.len()
        invariant
            bc.len() <= pc.len() || !is_prefix,
            k <= bc.len(),
            is_prefix ==> forall|j: int| 0 <= j < k ==> views(pc@)[j] == views(bc@)[j],
            !is_prefix ==> !(bc@.len() <= pc@.len() && views(pc@).take(bc@.len() as int) == views(bc@)),
        decreases bc.len() - k,
    {
        assert(views(pc@)[k as int] == pc@[k as int]@);
        assert(views(bc@)[k as int] == bc@[k as int]@);
        if !chars_eq(pc[k].as_slice(), bc[k].as_slice()) {
            assert(views(pc@).take(bc@.len() as int)[k as int] == views(pc@)[k as int]);
            is_prefix = false;
        }
        k += 1;
    }
    if !is_prefix {
        return None;
    }
    assert(views(pc@).take(bc@.len() as int) =~= views(bc@));
    let mut rest: Vec<Vec<char>> = Vec::new();
    let mut i = bc.len();
    while i < pc.len()
        invariant
            bc.len() <= i <= pc.len(),
            views(rest@) == views(pc@).subrange(bc@.len() as int, i as int),
        decreases pc.len() - i,
    {
        let c = crate::text::copy_chars(&pc[i]);
        let ghost prev = rest@;
        rest.push(c);
        proof {
            crate::text::lemma_views_push(prev, c);
            assert(views(pc@)[i as int] == pc@[i as int]@);
            assert(views(rest@) =~= views(pc@).subrange(bc@.len() as int, i + 1));
        }
        i += 1;
    }
    assert(views(pc@).subrange(bc@.len() as int, pc@.len() as int) =~= views(pc@).skip(bc@.len() as int));
    Some(rest)
}

/// `path` relative to `base`, with `/` separators, for reports.
pub fn relative_worktree_path(path: &str, base: &str) -> (r: String)
    ensures
        r@ == worktree_relative(path@, base@),
{
    match strip_path_prefix(path, base) {
        Some(rest) => {
            let sep: Vec<char> = vec!['/'];
            let joined = join_chars(&rest, sep.as_slice());
            assert(sep@ =~= seq!['/']);
            string_of(to_slashes(joined.as_slice()).as_slice())
        },
        None => string_of(to_slashes(chars_of(path).as_slice()).as_slice()),
    }
}

} // verus!
