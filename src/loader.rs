//! The import graph loader: which file to parse next. Reading files and asking
//! the file system which candidate path exists are left to the caller; this
//! module decides the order (depth first, in import order) and never hands out
//! a path that is already registered.
use vstd::prelude::*;
use crate::ast::{Source, Top};
use crate::diagnostics::Span;
use crate::encode::views;
use crate::parser::{has_path, ASTParser};
use crate::text::chars_of;

verus! {

/// Relies on `snailquote::unescape`: the text of a quoted literal with its
/// quotes removed and its escapes replaced, or `None` where an escape is invalid.
pub uninterp spec fn unescaped_of(s: Seq<char>) -> Option<Seq<char>>;

/// Relies on `snailquote::unescape`.
#[verifier::external_body]
fn unescape_literal(s: &str) -> (r: Option<String>)
    ensures
        match r {
            Some(u) => unescaped_of(s@) == Some(u@),
            None => unescaped_of(s@) is None,
        },
{
    match snailquote::unescape(s) {
        Ok(u) => Some(u),
        Err(_) => None,
    }
}

/// The directory part of a path: everything before its last `/`, or `.` for a
/// bare file name.
pub open spec fn parent_dir(path: Seq<char>) -> Seq<char>
    decreases path.len(),
{
    if path.len() == 0 {
        seq!['.']
    } else if path.last() == '/' {
        if path.len() == 1 { seq!['/'] } else { path.drop_last() }
    } else {
        parent_dir(path.drop_last())
    }
}

/// `rel` taken relative to `dir`; an absolute `rel` stands as it is.
pub open spec fn joined(dir: Seq<char>, rel: Seq<char>) -> Seq<char> {
    if rel.len() > 0 && rel[0] == '/' {
        rel
    } else if dir.len() > 0 && dir.last() == '/' {
        dir + rel
    } else {
        dir + seq!['/'] + rel
    }
}

/// The paths tried, in order, for an import of `rel` from the file `importing`:
/// the path itself (which must not be a directory), the path with the schema
/// extension added, and the index file of the directory of that name.
pub open spec fn candidates(importing: Seq<char>, rel: Seq<char>) -> Seq<Seq<char>> {
    let j = joined(parent_dir(importing), rel);
    seq![j, j + ".teo"@, j + "/index.teo"@]
}

pub fn parent_directory(path: &str) -> (r: String)
    ensures
        r@ == parent_dir(path@),
{
    let cs = chars_of(path);
    let mut k: usize = cs.len();
    assert(cs@.subrange(0, cs@.len() as int) =~= path@);
    while k > 0 && cs[k - 1] != '/'
        invariant
            k <= cs@.len(),
            cs@ == path@,
            parent_dir(path@) == parent_dir(cs@.subrange(0, k as int)),
        decreases k,
    {
        proof {
            assert(cs@.subrange(0, k as int).drop_last() =~= cs@.subrange(0, k - 1));
        }
        k = k - 1;
    }
    let mut out = String::new();
    if k == 0 {
        out.push('.');
        assert(out@ =~= seq!['.']);
        assert(cs@.subrange(0, 0) =~= Seq::<char>::empty());
    } else if k == 1 {
        out.push('/');
        assert(out@ =~= seq!['/']);
    } else {
        let mut i: usize = 0;
        while i < k - 1
            invariant
                i <= k - 1,
                1 < k <= cs@.len(),
                out@ == cs@.subrange(0, i as int),
            decreases k - 1 - i,
        {
            out.push(cs[i]);
            i = i + 1;
            assert(out@ =~= cs@.subrange(0, i as int));
        }
        assert(cs@.subrange(0, k as int).drop_last() =~= cs@.subrange(0, k - 1));
    }
    out
}

/// The paths to try, in order, for an import of `rel` from the file `importing`.
pub fn import_candidates(importing: &str, rel: &str) -> (r: Vec<String>)
    ensures
        views(r@) == candidates(importing@, rel@),
{
    let dir = parent_directory(importing);
    let mut j = String::new();
    let rel_abs = rel.unicode_len() > 0 && rel.get_char(0) == '/';
    let dir_len = dir.as_str().unicode_len();
    if rel_abs {
        j.append(rel);
    } else if dir_len > 0 && dir.as_str().get_char(dir_len - 1) == '/' {
        j.append(dir.as_str());
        j.append(rel);
    } else {
        j.append(dir.as_str());
        j.push('/');
        j.append(rel);
    }
    assert(j@ =~= joined(parent_dir(importing@), rel@));
    let mut with_ext = j.clone();
    with_ext.append(".teo");
    let mut index = j.clone();
    index.append("/index.teo");
    let mut r: Vec<String> = Vec::new();
    r.push(j);
    r.push(with_ext);
    r.push(index);
    assert(views(r@) =~= candidates(importing@, rel@));
    r
}

/// The unescaped paths of the imports among the declarations, in file order;
/// `None` when some import's literal has an invalid escape.
pub open spec fn import_paths(tops: Seq<Top>) -> Option<Seq<Seq<char>>>
    decreases tops.len(),
{
    if tops.len() == 0 {
        Some(Seq::empty())
    } else {
        match import_paths(tops.drop_last()) {
            None => None,
            Some(v) => match tops.last() {
                Top::Import(imp) => match unescaped_of(imp.source@) {
                    Some(u) => Some(v.push(u)),
                    None => None,
                },
                _ => Some(v),
            },
        }
    }
}

proof fn lemma_import_paths_none(tops: Seq<Top>, k: int)
    requires
        0 <= k <= tops.len(),
        import_paths(tops.subrange(0, k)) is None,
    ensures
        import_paths(tops) is None,
    decreases tops.len() - k,
{
    if k < tops.len() {
        assert(tops.subrange(0, k + 1).drop_last() =~= tops.subrange(0, k));
        lemma_import_paths_none(tops, k + 1);
    } else {
        assert(tops.subrange(0, k) =~= tops);
    }
}

/// The candidate that an import resolves to, given what the file system says
/// of each candidate (whether it exists, whether it is a directory): the
/// first that exists, where the first candidate (the path as written) must
/// also not be a directory.
pub open spec fn chosen_candidate(found: Seq<(bool, bool)>) -> Option<int>
    decreases found.len(),
{
    if found.len() == 0 {
        None
    } else {
        match chosen_candidate(found.drop_last()) {
            Some(i) => Some(i),
            None => {
                let last = found.len() - 1;
                if found[last].0 && (last > 0 || !found[last].1) { Some(last) } else { None }
            },
        }
    }
}

/// The index of the candidate that an import resolves to.
pub fn choose_candidate(found: &Vec<(bool, bool)>) -> (r: Option<usize>)
    ensures
        match chosen_candidate(found@) {
            Some(i) => r == Some(i as usize),
            None => r is None,
        },
{
    let mut i: usize = 0;
    while i < found.len()
        invariant
            i <= found@.len(),
            chosen_candidate(found@.subrange(0, i as int)) is None,
        decreases found@.len() - i,
    {
        proof {
            assert(found@.subrange(0, i + 1).drop_last() =~= found@.subrange(0, i as int));
        }
        let (exists, is_dir) = found[i];
        if exists && (i > 0 || !is_dir) {
            proof { lemma_chosen_prefix(found@, i as int + 1, i as int); }
            return Some(i);
        }
        i = i + 1;
    }
    assert(found@.subrange(0, found@.len() as int) =~= found@);
    None
}

proof fn lemma_chosen_prefix(found: Seq<(bool, bool)>, k: int, j: int)
    requires
        0 < k <= found.len(),
        chosen_candidate(found.subrange(0, k)) == Some(j),
    ensures
        chosen_candidate(found) == Some(j),
    decreases found.len() - k,
{
    if k < found.len() {
        assert(found.subrange(0, k + 1).drop_last() =~= found.subrange(0, k));
        lemma_chosen_prefix(found, k + 1, j);
    } else {
        assert(found.subrange(0, k) =~= found);
    }
}

/// An import of a parsed source, with the paths to try for it.
#[derive(Debug)]
pub struct ImportRequest {
    /// The imported path as written, unescaped.
    pub relative: String,
    /// Where the path literal stands in the importing source.
    pub span: Span,
    pub candidates: Vec<String>,
}

pub open spec fn relatives(v: Seq<ImportRequest>) -> Seq<Seq<char>> {
    v.map_values(|q: ImportRequest| q.relative@)
}

/// The imports of the source at `index`, in file order, each with its
/// unescaped path and the paths to try for it. `Err` gives the span of a path
/// literal with an invalid escape; it comes exactly when one exists.
pub fn import_requests(parser: &ASTParser, index: usize) -> (r: Result<Vec<ImportRequest>, Span>)
    requires
        index < parser.sources@.len(),
    ensures
        match r {
            Ok(v) => {
                &&& import_paths(parser.sources@[index as int].tops@) == Some(relatives(v@))
                &&& forall|i: int|
                    0 <= i < v@.len() ==> views((#[trigger] v@[i]).candidates@) == candidates(
                        parser.sources@[index as int].path@,
                        v@[i].relative@,
                    )
            },
            Err(_) => import_paths(parser.sources@[index as int].tops@) is None,
        },
{
    let source = &parser.sources[index];
    let mut out: Vec<ImportRequest> = Vec::new();
    let mut k: usize = 0;
    assert(relatives(out@) =~= Seq::<Seq<char>>::empty());
    assert(source.tops@.subrange(0, 0) =~= Seq::<Top>::empty());
    while k < source.tops.len()
        invariant
            k <= source.tops@.len(),
            *source == parser.sources@[index as int],
            import_paths(source.tops@.subrange(0, k as int)) == Some(relatives(out@)),
            forall|i: int|
                0 <= i < out@.len() ==> views((#[trigger] out@[i]).candidates@) == candidates(source.path@, out@[i].relative@),
        decreases source.tops@.len() - k,
    {
        proof {
            assert(source.tops@.subrange(0, k + 1).drop_last() =~= source.tops@.subrange(0, k as int));
            assert(source.tops@.subrange(0, k + 1).last() == source.tops@[k as int]);
        }
        match &source.tops[k] {
            Top::Import(import) => {
                match unescape_literal(import.source.as_str()) {
                    Some(relative) => {
                        let paths = import_candidates(source.path.as_str(), relative.as_str());
                        let ghost before = out@;
                        out.push(ImportRequest { relative, span: import.source_span, candidates: paths });
                        proof {
                            assert(relatives(out@) =~= relatives(before).push(out@.last().relative@));
                            assert forall|i: int|
                                0 <= i < out@.len() implies views((#[trigger] out@[i]).candidates@) == candidates(
                                source.path@,
                                out@[i].relative@,
                            ) by {
                                if i < before.len() {
                                    assert(out@[i] == before[i]);
                                }
                            }
                        }
                    },
                    None => {
                        proof { lemma_import_paths_none(source.tops@, k as int + 1); }
                        return Err(import.source_span);
                    },
                }
            },
            _ => {},
        }
        k = k + 1;
    }
    assert(source.tops@.subrange(0, source.tops@.len() as int) =~= source.tops@);
    Ok(out)
}

/// The index of the last path of the queue that is not registered yet.
pub open spec fn last_unregistered(queue: Seq<Seq<char>>, sources: Seq<Source>) -> Option<int>
    decreases queue.len(),
{
    if queue.len() == 0 {
        None
    } else if !has_path(sources, queue.last()) {
        Some(queue.len() - 1)
    } else {
        last_unregistered(queue.drop_last(), sources)
    }
}

/// The files still to be parsed, the next one last.
pub struct ImportLoader {
    pub pending: Vec<String>,
}

impl ImportLoader {
    /// A loader that starts from the main schema file.
    pub fn new(main: String) -> (r: Self)
        ensures
            views(r.pending@) == seq![main@],
    {
        let mut pending: Vec<String> = Vec::new();
        pending.push(main);
        let r = ImportLoader { pending };
        assert(views(r.pending@) =~= seq![main@]);
        r
    }

    /// The next file to parse: the most recently queued one that is not
    /// registered yet. The registered files queued after it are dropped, and
    /// every other queued file stays, so no path is handed out twice, an
    /// import cycle ends, and no unregistered file is lost.
    pub fn next_path(&mut self, parser: &ASTParser) -> (r: Option<String>)
        ensures
            match last_unregistered(views(old(self).pending@), parser.sources@) {
                Some(j) => r matches Some(p) && p@ == views(old(self).pending@)[j]
                    && views(final(self).pending@) == views(old(self).pending@).subrange(0, j),
                None => r is None && final(self).pending@.len() == 0,
            },
    {
        let ghost all = views(self.pending@);
        while self.pending.len() > 0
            invariant
                all == views(old(self).pending@),
                self.pending@.len() <= all.len(),
                views(self.pending@) == all.subrange(0, self.pending@.len() as int),
                last_unregistered(all, parser.sources@) == last_unregistered(views(self.pending@), parser.sources@),
            decreases self.pending@.len(),
        {
            let ghost before = views(self.pending@);
            let p = self.pending.pop().unwrap();
            proof {
                assert(before.drop_last() =~= views(self.pending@));
                assert(before.last() == p@);
                assert(views(self.pending@) =~= all.subrange(0, self.pending@.len() as int));
            }
            if parser.source_index_by_path(p.as_str()).is_none() {
                proof {
                    assert(!has_path(parser.sources@, before.last()));
                    assert(last_unregistered(before, parser.sources@) == Some(before.len() - 1));
                    assert(before[before.len() - 1] == all[before.len() - 1]);
                }
                return Some(p);
            }
        }
        assert(views(self.pending@) =~= Seq::<Seq<char>>::empty());
        None
    }

    /// Queues the files that a source imports, in import order: the first
    /// one is parsed next, and its own imports before the second.
    pub fn push_imports(&mut self, targets: Vec<String>)
        ensures
            views(final(self).pending@) == views(old(self).pending@) + views(targets@).reverse(),
    {
        let mut targets = targets;
        let ghost all = views(targets@);
        while targets.len() > 0
            invariant
                views(self.pending@) == views(old(self).pending@) + all.subrange(targets@.len() as int, all.len() as int).reverse(),
                views(targets@) == all.subrange(0, targets@.len() as int),
                targets@.len() <= all.len(),
            decreases targets@.len(),
        {
            let ghost before = views(targets@);
            let ghost pending_before = views(self.pending@);
            let t = targets.pop().unwrap();
            assert(before[before.len() - 1] == t@);
            assert(t@ == all[targets@.len() as int]);
            self.pending.push(t);
            assert(views(self.pending@) =~= pending_before.push(all[targets@.len() as int]));
            assert(all.subrange(targets@.len() as int, all.len() as int).reverse() =~= all.subrange(
                targets@.len() as int + 1,
                all.len() as int,
            ).reverse().push(all[targets@.len() as int]));
            assert(views(targets@) =~= all.subrange(0, targets@.len() as int));
            assert(views(self.pending@) =~= views(old(self).pending@) + all.subrange(targets@.len() as int, all.len() as int).reverse());
        }
        assert(all.subrange(0, all.len() as int) =~= all);
    }
}

} // verus!
