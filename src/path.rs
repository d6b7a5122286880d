//! Filesystem paths as plain values: an absolute flag and a list of
//! components. Joining and taking the parent follow the rules of
//! `std::path::Path`: joining an absolute path replaces the base, and the
//! parent of a path without components does not exist.
use vstd::prelude::*;
use vstd::string::*;

verus! {

/// The mathematical value of a path.
pub struct PathModel {
    pub absolute: bool,
    pub parts: Seq<Seq<char>>,
}

/// `rel` joined onto `base`; an absolute `rel` replaces `base`.
pub open spec fn join_spec(base: PathModel, rel: PathModel) -> PathModel {
    if rel.absolute {
        rel
    } else {
        PathModel { absolute: base.absolute, parts: base.parts + rel.parts }
    }
}

/// The enclosing directory, absent for a root or an empty path.
pub open spec fn parent_spec(p: PathModel) -> Option<PathModel> {
    if p.parts.len() == 0 {
        None
    } else {
        Some(PathModel { absolute: p.absolute, parts: p.parts.drop_last() })
    }
}

/// Components separated by `/`.
pub open spec fn parts_text(parts: Seq<Seq<char>>) -> Seq<char>
    decreases parts.len(),
{
    if parts.len() == 0 {
        Seq::empty()
    } else if parts.len() == 1 {
        parts[0]
    } else {
        parts_text(parts.drop_last()) + seq!['/'] + parts.last()
    }
}

/// The textual form of a path: a leading `/` when absolute, then the components.
pub open spec fn text_spec(p: PathModel) -> Seq<char> {
    if p.absolute {
        seq!['/'] + parts_text(p.parts)
    } else {
        parts_text(p.parts)
    }
}

/// The text of each component.
pub open spec fn part_views(v: Seq<String>) -> Seq<Seq<char>> {
    v.map_values(|s: String| s@)
}

/// A filesystem path held as an absolute flag and its components.
#[derive(Debug, Clone)]
pub struct FilePath {
    pub absolute: bool,
    pub parts: Vec<String>,
}

impl View for FilePath {
    type V = PathModel;

    open spec fn view(&self) -> PathModel {
        PathModel { absolute: self.absolute, parts: part_views(self.parts@) }
    }
}

proof fn lemma_part_views_add(a: Seq<String>, b: Seq<String>)
    ensures
        part_views(a + b) == part_views(a) + part_views(b),
{
    assert forall|k: int| 0 <= k < a.len() + b.len() implies #[trigger] part_views(a + b)[k] == (
    part_views(a) + part_views(b))[k] by {
        if k < a.len() {
            assert((a + b)[k] == a[k]);
        } else {
            assert((a + b)[k] == b[k - a.len()]);
        }
    }
    assert(part_views(a + b) =~= part_views(a) + part_views(b));
}

fn copy_parts_into(dst: &mut Vec<String>, src: &Vec<String>, n: usize)
    requires
        n <= src.len(),
    ensures
        final(dst)@ == old(dst)@ + src@.subrange(0, n as int),
        part_views(final(dst)@) == part_views(old(dst)@) + part_views(src@.subrange(0, n as int)),
{
    let ghost start = dst@;
    let mut i: usize = 0;
    while i < n
        invariant
            i <= n <= src.len(),
            dst@ == start + src@.subrange(0, i as int),
        decreases n - i,
    {
        let part = src[i].clone();
        dst.push(part);
        i = i + 1;
        assert(dst@ =~= start + src@.subrange(0, i as int));
    }
    proof {
        lemma_part_views_add(start, src@.subrange(0, n as int));
    }
}

impl FilePath {
    /// A path with the given absolute flag and components.
    pub fn new(absolute: bool, parts: Vec<String>) -> (r: FilePath)
        ensures
            r.absolute == absolute,
            r.parts@ == parts@,
    {
        FilePath { absolute, parts }
    }

    /// A copy of this path.
    pub fn duplicate(&self) -> (r: FilePath)
        ensures
            r@ == self@,
    {
        let mut parts: Vec<String> = Vec::new();
        copy_parts_into(&mut parts, &self.parts, self.parts.len());
        assert(self.parts@.subrange(0, self.parts.len() as int) =~= self.parts@);
        assert(part_views(parts@) =~= part_views(self.parts@));
        FilePath { absolute: self.absolute, parts }
    }

    pub fn is_relative(&self) -> (r: bool)
        ensures
            r == !self@.absolute,
    {
        !self.absolute
    }

    /// `rel` joined onto this path.
    pub fn join(&self, rel: &FilePath) -> (r: FilePath)
        ensures
            r@ == join_spec(self@, rel@),
    {
        if rel.absolute {
            rel.duplicate()
        } else {
            let mut parts: Vec<String> = Vec::new();
            copy_parts_into(&mut parts, &self.parts, self.parts.len());
            copy_parts_into(&mut parts, &rel.parts, rel.parts.len());
            assert(self.parts@.subrange(0, self.parts.len() as int) =~= self.parts@);
            assert(rel.parts@.subrange(0, rel.parts.len() as int) =~= rel.parts@);
            assert(part_views(parts@) =~= self@.parts + rel@.parts);
            FilePath { absolute: self.absolute, parts }
        }
    }

    /// The enclosing directory, if there is one.
    pub fn parent(&self) -> (r: Option<FilePath>)
        ensures
            match r {
                Some(q) => parent_spec(self@) == Some(q@),
                None => parent_spec(self@) is None,
            },
    {
        let n = self.parts.len();
        if n == 0 {
            None
        } else {
            let mut parts: Vec<String> = Vec::new();
            copy_parts_into(&mut parts, &self.parts, n - 1);
            assert(part_views(parts@) =~= self@.parts.drop_last());
            Some(FilePath { absolute: self.absolute, parts })
        }
    }

    /// The textual form: `/` before an absolute path, `/` between components.
    pub fn to_text(&self) -> (r: String)
        ensures
            r@ == text_spec(self@),
    {
        let mut text = String::new();
        if self.absolute {
            text.append("/");
        }
        let ghost prefix = text@;
        proof {
            reveal_strlit("/");
        }
        let mut i: usize = 0;
        while i < self.parts.len()
            invariant
                i <= self.parts.len(),
                prefix == (if self.absolute { seq!['/'] } else { Seq::<char>::empty() }),
                text@ == prefix + parts_text(self@.parts.subrange(0, i as int)),
            decreases self.parts.len() - i,
        {
            let ghost before = self@.parts.subrange(0, i as int);
            let ghost after = self@.parts.subrange(0, i + 1);
            assert(after.drop_last() =~= before);
            proof {
                reveal_strlit("/");
            }
            if i > 0 {
                text.append("/");
            }
            text.append(self.parts[i].as_str());
            assert(after.last() == self.parts[i as int]@);
            assert(after.len() == i + 1);
            i = i + 1;
            assert(text@ =~= prefix + parts_text(after));
        }
        assert(self@.parts.subrange(0, self.parts.len() as int) =~= self@.parts);
        text
    }
}

} // verus!
