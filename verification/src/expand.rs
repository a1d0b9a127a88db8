//! `\input` expansion as a sequence of steps. The files themselves are looked
//! up and read by the caller: each step says which files a directive may
//! name, and the caller answers with what it found. The expansion keeps the
//! stack of files being expanded and applies the depth limit.
use vstd::prelude::*;
use crate::inputs::{candidate_paths, candidate_paths_spec, directives, directive_view, expanded_spec,
    input_directives, splice_inputs, InputDirective, MAX_INPUT_DEPTH};
use crate::tex::{strip_comments_spec, strip_latex_comments};
use crate::text;
use crate::text::{str_chars, string_from_chars};

verus! {

/// The names the directives of a text give, in order.
pub open spec fn directive_names(s: Seq<char>) -> Seq<Seq<char>> {
    directives(s, 0).map_values(|d: (int, int, int)| directive_view(s, d).2)
}

/// One file being expanded, as values: its text with comments stripped, the
/// directory its directives are resolved against, the names they give, and
/// the expansions found so far for the first of them.
pub struct FrameView {
    pub text: Seq<char>,
    pub base: Seq<char>,
    pub names: Seq<Seq<char>>,
    pub reps: Seq<Option<String>>,
}

/// An expansion in progress, as values: the paper's root directory, the
/// files being expanded (innermost last) and how many files were read.
pub struct ExpansionView {
    pub root: Seq<char>,
    pub frames: Seq<FrameView>,
    pub files_read: nat,
}

/// A file whose directives are all still to be expanded.
pub open spec fn fresh_frame(tex: Seq<char>, base: Seq<char>) -> FrameView {
    let t = strip_comments_spec(tex);
    FrameView { text: t, base, names: directive_names(t), reps: Seq::empty() }
}

/// The frame still has a directive without an expansion.
pub open spec fn pending(f: FrameView) -> bool {
    f.reps.len() < f.names.len()
}

/// The innermost file with one more expansion recorded.
pub open spec fn record(v: ExpansionView, r: Option<String>) -> ExpansionView {
    let top = v.frames.last();
    ExpansionView { frames: v.frames.drop_last().push(FrameView { reps: top.reps.push(r), ..top }), ..v }
}

/// What a step asks of the caller.
pub enum ExpandAction {
    /// Find the file the directive naming the text resolves to, trying the
    /// paths in order (see `inputs::resolve_input`), and read it; then call
    /// `enter` with its text, or `skip` when there is none.
    Lookup(String, Vec<String>),
    /// A nested file was done and now stands in for its directive.
    Returned,
    /// The expansion is complete: the text with every directive replaced.
    Done(String),
}

struct Frame {
    text: String,
    base: String,
    names: Vec<String>,
    reps: Vec<Option<String>>,
}

impl View for Frame {
    type V = FrameView;

    closed spec fn view(&self) -> FrameView {
        FrameView { text: self.text@, base: self.base@, names: text::string_views(self.names@), reps: self.reps@ }
    }
}

/// An `\input` expansion in progress.
pub struct InputExpansion {
    root: String,
    frames: Vec<Frame>,
    files_read: usize,
}

/// Every frame's names are its text's; expansions never outnumber them;
/// every file but the innermost waits on one of its directives.
pub open spec fn expansion_wf(v: ExpansionView) -> bool {
    &&& v.frames.len() > 0
    &&& forall|i: int| 0 <= i < v.frames.len() ==> #[trigger] v.frames[i].names == directive_names(v.frames[i].text)
    &&& forall|i: int| 0 <= i < v.frames.len() ==> #[trigger] v.frames[i].reps.len() <= v.frames[i].names.len()
    &&& forall|i: int| 0 <= i < v.frames.len() - 1 ==> pending(#[trigger] v.frames[i])
}

impl InputExpansion {
    #[verifier::type_invariant]
    spec fn inv(self) -> bool {
        expansion_wf(self@)
    }
}

impl View for InputExpansion {
    type V = ExpansionView;

    closed spec fn view(&self) -> ExpansionView {
        ExpansionView {
            root: self.root@,
            frames: self.frames@.map_values(|f: Frame| f@),
            files_read: self.files_read as nat,
        }
    }
}

fn new_frame(tex: &str, base: &str) -> (f: Frame)
    ensures
        f@ == fresh_frame(tex@, base@),
{
    let text = strip_latex_comments(tex);
    let ds = input_directives(text.as_str());
    let ghost t = text@;
    let mut names: Vec<String> = Vec::new();
    let mut i: usize = 0;
    while i < ds.len()
        invariant
            i <= ds@.len(),
            ds@.map_values(|d: InputDirective| (d.start as int, d.end as int, d.name@))
                == directives(t, 0).map_values(|d: (int, int, int)| directive_view(t, d)),
            text::string_views(names@) == directive_names(t).take(i as int),
        decreases ds@.len() - i,
    {
        proof {
            let a = ds@.map_values(|d: InputDirective| (d.start as int, d.end as int, d.name@));
            let b = directives(t, 0).map_values(|d: (int, int, int)| directive_view(t, d));
            assert(a.len() == b.len());
            assert(a[i as int] == b[i as int]);
            assert(ds@[i as int].name@ == directive_names(t)[i as int]);
        }
        let n = string_from_chars(&str_chars(ds[i].name.as_str()));
        let ghost before = names@;
        names.push(n);
        proof {
            assert(names@ == before.push(n));
            assert(text::string_views(names@) =~= text::string_views(before).push(n@));
            assert(directive_names(t).take(i + 1) =~= directive_names(t).take(i as int).push(directive_names(t)[i as int]));
        }
        i += 1;
    }
    proof {
        let a = ds@.map_values(|d: InputDirective| (d.start as int, d.end as int, d.name@));
        let b = directives(t, 0).map_values(|d: (int, int, int)| directive_view(t, d));
        assert(a.len() == b.len());
        assert(directive_names(t).take(i as int) =~= directive_names(t));
    }
    let f = Frame { text, base: string_from_chars(&str_chars(base)), names, reps: Vec::new() };
    assert(f@.reps =~= Seq::<Option<String>>::empty());
    f
}

impl InputExpansion {
    /// Whether the innermost file has a directive still to expand.
    fn looking_up(&self) -> (b: bool)
        ensures
            b == pending(self@.frames.last()),
    {
        proof {
            use_type_invariant(self);
        }
        let k = self.frames.len() - 1;
        assert(self@.frames.last() == self.frames@[k as int]@);
        self.frames[k].reps.len() < self.frames[k].names.len()
    }

    /// Starts expanding `tex`, a file in directory `base` of the paper whose
    /// root is `root`. No file has been read yet.
    pub fn start(tex: &str, base: &str, root: &str) -> (e: InputExpansion)
        ensures
            e@ == (ExpansionView { root: root@, frames: seq![fresh_frame(tex@, base@)], files_read: 0 }),
            expansion_wf(e@),
    {
        let f = new_frame(tex, base);
        let mut frames: Vec<Frame> = Vec::new();
        frames.push(f);
        let e = InputExpansion { root: string_from_chars(&str_chars(root)), frames, files_read: 0 };
        assert(e@.frames =~= seq![fresh_frame(tex@, base@)]);
        e
    }

    /// The next step: the innermost file's next directive to look up; or,
    /// when all of its directives are done, its expanded text, which either
    /// completes the expansion or stands in for the directive that named it.
    pub fn step(self) -> (r: (InputExpansion, ExpandAction))
        ensures
            expansion_wf(r.0@),
            ({
                let v = self@;
                let top = v.frames.last();
                if pending(top) {
                    &&& r.0@ == v
                    &&& r.1 matches ExpandAction::Lookup(name, paths)
                    &&& name@ == top.names[top.reps.len() as int]
                    &&& text::string_views(paths@) == candidate_paths_spec(top.base, v.root, name@)
                } else if v.frames.len() == 1 {
                    &&& r.0@ == v
                    &&& r.1 matches ExpandAction::Done(t)
                    &&& t@ == expanded_spec(top.text, top.reps)
                } else {
                    &&& r.1 is Returned
                    &&& r.0@.root == v.root
                    &&& r.0@.files_read == v.files_read
                    &&& r.0@.frames.len() == v.frames.len() - 1
                    &&& r.0@.frames.drop_last() == v.frames.drop_last().drop_last()
                    &&& ({
                        let p = v.frames[v.frames.len() - 2];
                        let q = r.0@.frames.last();
                        &&& q.text == p.text && q.base == p.base && q.names == p.names
                        &&& q.reps.drop_last() == p.reps
                        &&& q.reps.last() matches Some(t) && t@ == expanded_spec(top.text, top.reps)
                    })
                }
            }),
    {
        proof {
            use_type_invariant(&self);
        }
        let ghost v = self@;
        let InputExpansion { root, mut frames, files_read } = self;
        let ghost fv = frames@;
        assert(fv.map_values(|f: Frame| f@).last() == fv.last()@);
        let top = frames.pop().unwrap();
        assert(frames@ == fv.drop_last());
        assert(top@ == v.frames.last());
        assert(top@.names == directive_names(top@.text));
        if top.reps.len() < top.names.len() {
            let k = top.reps.len();
            let name = string_from_chars(&str_chars(top.names[k].as_str()));
            let paths = candidate_paths(top.base.as_str(), root.as_str(), name.as_str());
            proof {
                assert(text::string_views(top.names@)[k as int] == top.names@[k as int]@);
            }
            frames.push(top);
            assert(frames@.map_values(|f: Frame| f@) =~= v.frames);
            let e = InputExpansion { root, frames, files_read };
            return (e, ExpandAction::Lookup(name, paths));
        }
        proof {
            assert(directive_names(top@.text).len() == directives(top@.text, 0).len());
        }
        let t = splice_inputs(top.text.as_str(), &top.reps);
        if frames.len() == 0 {
            frames.push(top);
            assert(frames@.map_values(|f: Frame| f@) =~= v.frames);
            let e = InputExpansion { root, frames, files_read };
            return (e, ExpandAction::Done(t));
        }
        let mut parent = frames.pop().unwrap();
        let ghost pv = parent@;
        assert(pv == v.frames[v.frames.len() - 2]);
        parent.reps.push(Some(t));
        frames.push(parent);
        proof {
            let w = frames@.map_values(|f: Frame| f@);
            assert(w.len() == v.frames.len() - 1);
            assert(w.drop_last() =~= v.frames.drop_last().drop_last());
            assert(w.last().reps.drop_last() =~= pv.reps);
            assert forall|i: int| 0 <= i < w.len() implies #[trigger] w[i].names == directive_names(w[i].text)
                && w[i].reps.len() <= w[i].names.len() by {
                if i < w.len() - 1 {
                    assert(w[i] == v.frames[i]);
                }
            }
            assert forall|i: int| 0 <= i < w.len() - 1 implies pending(#[trigger] w[i]) by {
                assert(w[i] == v.frames[i]);
            }
        }
        let e = InputExpansion { root, frames, files_read };
        (e, ExpandAction::Returned)
    }

    /// The directive being looked up expands to nothing: no file exists for
    /// it, the file was expanded before, or it could not be read.
    /// Nothing changes when no directive is being looked up.
    pub fn skip(self) -> (e: InputExpansion)
        ensures
            expansion_wf(e@),
            pending(self@.frames.last()) ==> e@ == record(self@, None),
            !pending(self@.frames.last()) ==> e@ == self@,
    {
        proof {
            use_type_invariant(&self);
        }
        if !self.looking_up() {
            return self;
        }
        let ghost v = self@;
        let InputExpansion { root, mut frames, files_read } = self;
        let ghost fv = frames@;
        assert(fv.map_values(|f: Frame| f@).last() == fv.last()@);
        let mut top = frames.pop().unwrap();
        assert(frames@ == fv.drop_last());
        top.reps.push(None);
        frames.push(top);
        proof {
            let w = frames@.map_values(|f: Frame| f@);
            assert(w =~= record(v, None).frames);
            assert forall|i: int| 0 <= i < w.len() - 1 implies pending(#[trigger] w[i]) by {
                assert(w[i] == v.frames[i]);
            }
        }
        InputExpansion { root, frames, files_read }
    }

    /// The directive being looked up names a file that was read: `content`,
    /// in directory `base`. It counts as one more file read; past the depth
    /// limit the directive expands to nothing, otherwise the file is
    /// expanded in turn. Nothing changes when no directive is being looked
    /// up.
    pub fn enter(self, content: &str, base: &str) -> (e: InputExpansion)
        ensures
            expansion_wf(e@),
            !pending(self@.frames.last()) ==> e@ == self@,
            pending(self@.frames.last()) ==> ({
                let v = self@;
                let n = if v.files_read < usize::MAX { v.files_read + 1 } else { v.files_read };
                if n > MAX_INPUT_DEPTH {
                    e@ == ExpansionView { files_read: n as nat, ..record(v, None) }
                } else {
                    e@ == ExpansionView { files_read: n as nat, frames: v.frames.push(fresh_frame(content@, base@)), ..v }
                }
            }),
    {
        proof {
            use_type_invariant(&self);
        }
        if !self.looking_up() {
            return self;
        }
        let n = if self.files_read < usize::MAX { self.files_read + 1 } else { self.files_read };
        if n > MAX_INPUT_DEPTH {
            let s = self.skip();
            let InputExpansion { root, frames, files_read: _ } = s;
            let e = InputExpansion { root, frames, files_read: n };
            return e;
        }
        let ghost v = self@;
        let InputExpansion { root, mut frames, files_read: _ } = self;
        let f = new_frame(content, base);
        frames.push(f);
        proof {
            let w = frames@.map_values(|f: Frame| f@);
            assert(w =~= v.frames.push(fresh_frame(content@, base@)));
            assert forall|i: int| 0 <= i < w.len() implies #[trigger] w[i].names == directive_names(w[i].text)
                && w[i].reps.len() <= w[i].names.len() by {
                if i < w.len() - 1 {
                    assert(w[i] == v.frames[i]);
                }
            }
            assert forall|i: int| 0 <= i < w.len() - 1 implies pending(#[trigger] w[i]) by {
                assert(w[i] == v.frames[i]);
            }
        }
        InputExpansion { root, frames, files_read: n }
    }
}

} // verus!
