//! Unix path syntax: the component model of a path string, lexical
//! normalisation, component-wise prefixes and joining.
use vstd::prelude::*;

verus! {

/// One component of a Unix path, as the standard library splits it.
#[derive(Debug)]
pub enum PathComponent {
    RootDir,
    CurDir,
    ParentDir,
    Normal(String),
}

/// The mathematical value of a [`PathComponent`].
pub enum ComponentView {
    RootDir,
    CurDir,
    ParentDir,
    Normal(Seq<char>),
}

impl View for PathComponent {
    type V = ComponentView;

    open spec fn view(&self) -> ComponentView {
        match self {
            PathComponent::RootDir => ComponentView::RootDir,
            PathComponent::CurDir => ComponentView::CurDir,
            PathComponent::ParentDir => ComponentView::ParentDir,
            PathComponent::Normal(s) => ComponentView::Normal(s@),
        }
    }
}

/// The views of a sequence of components.
pub open spec fn comps_view(v: Seq<PathComponent>) -> Seq<ComponentView> {
    v.map_values(|c: PathComponent| c@)
}

/// The component (if any) that one separator-free segment contributes:
/// empty segments and `.` vanish, `..` is the parent directory.
pub open spec fn segment_component(seg: Seq<char>) -> Seq<ComponentView> {
    if seg.len() == 0 || seg =~= seq!['.'] {
        seq![]
    } else if seg =~= seq!['.', '.'] {
        seq![ComponentView::ParentDir]
    } else {
        seq![ComponentView::Normal(seg)]
    }
}

/// Components of `s` from position `i` on, where the current segment began at `start`.
pub open spec fn scan_components(s: Seq<char>, start: int, i: int) -> Seq<ComponentView>
    decreases s.len() - i,
{
    if i >= s.len() || i < 0 || start < 0 || start > i {
        segment_component(s.subrange(start, s.len() as int))
    } else if s[i] == '/' {
        segment_component(s.subrange(start, i)) + scan_components(s, i + 1, i + 1)
    } else {
        scan_components(s, start, i + 1)
    }
}

/// The path begins with the root directory.
pub open spec fn has_root(s: Seq<char>) -> bool {
    s.len() > 0 && s[0] == '/'
}

/// A relative path that begins with a `.` segment keeps it as a leading `CurDir`.
pub open spec fn leading_cur_dir(s: Seq<char>) -> bool {
    !has_root(s) && s.len() > 0 && s[0] == '.' && (s.len() == 1 || s[1] == '/')
}

/// The components of a path string: a leading root or current directory,
/// then one component per segment between separators, where empty segments
/// and `.` segments vanish and `..` is the parent directory.
pub open spec fn components_of(s: Seq<char>) -> Seq<ComponentView> {
    let head = if has_root(s) {
        seq![ComponentView::RootDir]
    } else if leading_cur_dir(s) {
        seq![ComponentView::CurDir]
    } else {
        seq![]
    };
    head + scan_components(s, 0, 0)
}

/// Removing the last component, as `PathBuf::pop` does: the root alone and
/// the empty path have no parent and stay as they are.
pub open spec fn pop_component(acc: Seq<ComponentView>) -> Seq<ComponentView> {
    if acc.len() == 0 || (acc.len() == 1 && acc[0] == ComponentView::RootDir) {
        acc
    } else {
        acc.drop_last()
    }
}

/// One step of lexical normalisation.
pub open spec fn normalize_step(acc: Seq<ComponentView>, c: ComponentView) -> Seq<ComponentView> {
    match c {
        ComponentView::ParentDir => pop_component(acc),
        ComponentView::CurDir => acc,
        ComponentView::RootDir => seq![ComponentView::RootDir],
        ComponentView::Normal(_) => acc.push(c),
    }
}

/// Lexical normalisation of a component sequence: `..` removes the previous
/// component, `.` is dropped, everything else is kept in order.
pub open spec fn normalize_components(cs: Seq<ComponentView>) -> Seq<ComponentView>
    decreases cs.len(),
{
    if cs.len() == 0 {
        seq![]
    } else {
        normalize_step(normalize_components(cs.drop_last()), cs.last())
    }
}

/// The shape of a normalised path: a root may come first, every other
/// component is a plain name.
pub open spec fn normal_form(s: Seq<ComponentView>) -> bool {
    forall|i: int|
        0 <= i < s.len() ==> (#[trigger] s[i] is Normal || (i == 0 && s[i] is RootDir))
}

/// Normalisation always yields that shape.
pub proof fn lemma_normalize_normal_form(cs: Seq<ComponentView>)
    ensures
        normal_form(normalize_components(cs)),
    decreases cs.len(),
{
    if cs.len() > 0 {
        lemma_normalize_normal_form(cs.drop_last());
        let prev = normalize_components(cs.drop_last());
        let next = normalize_components(cs);
        assert forall|i: int| 0 <= i < next.len() implies (#[trigger] next[i] is Normal || (i == 0
            && next[i] is RootDir)) by {
            match cs.last() {
                ComponentView::RootDir => {},
                _ => {
                    if i < prev.len() {
                        assert(next[i] == prev[i]);
                    }
                },
            }
        }
    }
}

/// A path already in normal form is left as it is.
pub proof fn lemma_normalize_fixes_normal_form(s: Seq<ComponentView>)
    requires
        normal_form(s),
    ensures
        normalize_components(s) == s,
    decreases s.len(),
{
    if s.len() > 0 {
        let init = s.drop_last();
        assert forall|i: int| 0 <= i < init.len() implies (#[trigger] init[i] is Normal || (i == 0
            && init[i] is RootDir)) by {
            assert(init[i] == s[i]);
        }
        lemma_normalize_fixes_normal_form(init);
        let last = s.last();
        assert(s[s.len() - 1] == last);
        if last is RootDir {
            assert(s.len() == 1);
            assert(init.len() == 0);
            assert(normalize_components(s) =~= s);
        } else {
            assert(init.push(last) =~= s);
        }
    }
}

/// Normalising twice changes nothing.
pub proof fn lemma_normalize_idempotent(cs: Seq<ComponentView>)
    ensures
        normalize_components(normalize_components(cs)) == normalize_components(cs),
{
    lemma_normalize_normal_form(cs);
    lemma_normalize_fixes_normal_form(normalize_components(cs));
}

proof fn lemma_normalize_keeps_root_components(cs: Seq<ComponentView>)
    requires
        cs.len() > 0,
        cs[0] is RootDir,
    ensures
        normalize_components(cs).len() > 0,
        normalize_components(cs)[0] is RootDir,
    decreases cs.len(),
{
    if cs.len() > 1 {
        let init = cs.drop_last();
        assert(init[0] == cs[0]);
        lemma_normalize_keeps_root_components(init);
        let prev = normalize_components(init);
        match cs.last() {
            ComponentView::ParentDir => {
                if !(prev.len() == 1 && prev[0] is RootDir) {
                    assert(prev.len() >= 2) by {
                        if prev.len() == 1 {
                            assert(prev[0] is RootDir);
                        }
                    }
                    assert(prev.drop_last()[0] == prev[0]);
                }
            },
            ComponentView::Normal(_) => {
                assert(prev.push(cs.last())[0] == prev[0]);
            },
            _ => {},
        }
    }
}

/// Normalisation keeps an absolute path absolute: `..` never climbs above
/// the root.
pub proof fn lemma_normalize_keeps_root(path: Seq<char>)
    requires
        has_root(path),
    ensures
        normalize_components(components_of(path)).len() > 0,
        normalize_components(components_of(path))[0] is RootDir,
{
    let cs = components_of(path);
    assert(cs[0] == ComponentView::RootDir);
    lemma_normalize_keeps_root_components(cs);
}

/// `p` is a component-wise prefix of `s`.
pub open spec fn is_component_prefix(p: Seq<ComponentView>, s: Seq<ComponentView>) -> bool {
    p.len() <= s.len() && s.subrange(0, p.len() as int) =~= p
}

/// `PathBuf::push` on strings: an absolute `rel` replaces `base`; otherwise a
/// separator is inserted unless `base` is empty or already ends in one.
pub open spec fn join_spec(base: Seq<char>, rel: Seq<char>) -> Seq<char> {
    if has_root(rel) {
        rel
    } else if base.len() == 0 || base.last() == '/' {
        base + rel
    } else {
        base + seq!['/'] + rel
    }
}

proof fn lemma_scan_step_sep(s: Seq<char>, start: int, i: int)
    requires
        0 <= start <= i < s.len(),
        s[i] == '/',
    ensures
        scan_components(s, start, i) == segment_component(s.subrange(start, i))
            + scan_components(s, i + 1, i + 1),
{
}

fn segment_to_component(s: &str, start: usize, end: usize) -> (r: Vec<PathComponent>)
    requires
        start <= end <= s@.len(),
    ensures
        comps_view(r@) == segment_component(s@.subrange(start as int, end as int)),
{
    let seg = s.substring_char(start, end);
    let ghost segv = s@.subrange(start as int, end as int);
    let n = end - start;
    let mut r: Vec<PathComponent> = Vec::new();
    if n == 0 {
        assert(comps_view(r@) =~= segment_component(segv));
        return r;
    }
    let c0 = seg.get_char(0);
    if n == 1 && c0 == '.' {
        assert(segv =~= seq!['.']);
        assert(comps_view(r@) =~= segment_component(segv));
        return r;
    }
    if n == 2 && c0 == '.' && seg.get_char(1) == '.' {
        assert(segv =~= seq!['.', '.']);
        r.push(PathComponent::ParentDir);
        assert(comps_view(r@) =~= segment_component(segv));
        return r;
    }
    assert(!(segv =~= seq!['.'])) by {
        if segv =~= seq!['.'] {
            assert(segv.len() == 1);
            assert(segv[0] == c0);
        }
    }
    assert(!(segv =~= seq!['.', '.'])) by {
        if segv =~= seq!['.', '.'] {
            assert(segv[0] == c0);
            assert(segv[1] == seg@[1]);
        }
    }
    r.push(PathComponent::Normal(seg.to_owned()));
    assert(comps_view(r@) =~= segment_component(segv));
    r
}

/// Splits a path string into its components, as `Path::components` does on Unix.
pub fn path_components(s: &str) -> (r: Vec<PathComponent>)
    ensures
        comps_view(r@) == components_of(s@),
{
    let n = s.unicode_len();
    let mut out: Vec<PathComponent> = Vec::new();
    let root = n > 0 && s.get_char(0) == '/';
    if root {
        out.push(PathComponent::RootDir);
    } else if n > 0 && s.get_char(0) == '.' && (n == 1 || s.get_char(1) == '/') {
        out.push(PathComponent::CurDir);
    }
    let ghost head = comps_view(out@);
    assert(head =~= (if has_root(s@) {
        seq![ComponentView::RootDir]
    } else if leading_cur_dir(s@) {
        seq![ComponentView::CurDir]
    } else {
        seq![]
    }));
    let mut start: usize = 0;
    let mut i: usize = 0;
    while i < n
        invariant
            n == s@.len(),
            start <= i <= n,
            comps_view(out@) + scan_components(s@, start as int, i as int) == head
                + scan_components(s@, 0, 0),
        decreases n - i,
    {
        if s.get_char(i) == '/' {
            let seg = segment_to_component(s, start, i);
            proof {
                lemma_scan_step_sep(s@, start as int, i as int);
            }
            let ghost before = comps_view(out@);
            let mut seg = seg;
            out.append(&mut seg);
            proof {
                assert(comps_view(out@) =~= before + segment_component(
                    s@.subrange(start as int, i as int),
                ));
                assert(comps_view(out@) + scan_components(s@, (i + 1) as int, (i + 1) as int)
                    =~= before + scan_components(s@, start as int, i as int));
            }
            start = i + 1;
        }
        i = i + 1;
    }
    let seg = segment_to_component(s, start, n);
    let ghost before = comps_view(out@);
    let mut seg = seg;
    out.append(&mut seg);
    assert(comps_view(out@) =~= before + scan_components(s@, start as int, n as int));
    out
}

/// Component equality.
pub fn component_eq(a: &PathComponent, b: &PathComponent) -> (r: bool)
    ensures
        r == (a@ == b@),
{
    match (a, b) {
        (PathComponent::RootDir, PathComponent::RootDir) => true,
        (PathComponent::CurDir, PathComponent::CurDir) => true,
        (PathComponent::ParentDir, PathComponent::ParentDir) => true,
        (PathComponent::Normal(x), PathComponent::Normal(y)) => x.eq(y),
        _ => false,
    }
}

/// Lexical normalisation of a path: `..` removes the previous component
/// (never above the root), `.` is dropped.
pub fn normalize_path(path: &str) -> (r: Vec<PathComponent>)
    ensures
        comps_view(r@) == normalize_components(components_of(path@)),
{
    let cs = path_components(path);
    let ghost csv = comps_view(cs@);
    let mut out: Vec<PathComponent> = Vec::new();
    let mut i: usize = 0;
    assert(csv.take(0) =~= Seq::<ComponentView>::empty());
    while i < cs.len()
        invariant
            i <= cs.len(),
            csv == comps_view(cs@),
            comps_view(out@) == normalize_components(csv.take(i as int)),
        decreases cs.len() - i,
    {
        let ghost prev = comps_view(out@);
        assert(csv.take(i + 1).drop_last() =~= csv.take(i as int));
        assert(csv.take(i + 1).last() == cs@[i as int]@);
        match &cs[i] {
            PathComponent::ParentDir => {
                let len = out.len();
                if len == 0 {
                } else if len == 1 && matches!(out[0], PathComponent::RootDir) {
                } else {
                    out.pop();
                    assert(comps_view(out@) =~= prev.drop_last());
                }
            },
            PathComponent::CurDir => {},
            PathComponent::RootDir => {
                out = Vec::new();
                out.push(PathComponent::RootDir);
                assert(comps_view(out@) =~= seq![ComponentView::RootDir]);
            },
            PathComponent::Normal(s) => {
                out.push(PathComponent::Normal(s.clone()));
                assert(comps_view(out@) =~= prev.push(cs@[i as int]@));
            },
        }
        i = i + 1;
    }
    assert(csv.take(cs.len() as int) =~= csv);
    out
}

/// `prefix` is a component-wise prefix of `comps`.
pub fn starts_with_components(comps: &Vec<PathComponent>, prefix: &Vec<PathComponent>) -> (r: bool)
    ensures
        r == is_component_prefix(comps_view(prefix@), comps_view(comps@)),
{
    if prefix.len() > comps.len() {
        return false;
    }
    let mut i: usize = 0;
    while i < prefix.len()
        invariant
            i <= prefix.len() <= comps.len(),
            forall|j: int| 0 <= j < i ==> comps@[j]@ == prefix@[j]@,
        decreases prefix.len() - i,
    {
        if !component_eq(&comps[i], &prefix[i]) {
            assert(comps_view(comps@).subrange(0, prefix.len() as int)[i as int] != comps_view(
                prefix@,
            )[i as int]);
            return false;
        }
        i = i + 1;
    }
    assert(comps_view(comps@).subrange(0, prefix.len() as int) =~= comps_view(prefix@));
    true
}

/// Appends one character to a string (`String::push`).
#[verifier::external_body]
pub(crate) fn push_char(s: &mut String, c: char)
    ensures
        final(s)@ == old(s)@.push(c),
{
    s.push(c);
}

/// Appends a string slice to a string.
pub(crate) fn push_str(s: &mut String, t: &str)
    ensures
        final(s)@ == old(s)@ + t@,
{
    s.append(t);
}

/// Joins `rel` onto `base` as `Path::join` does.
pub fn path_join(base: &str, rel: &str) -> (r: String)
    ensures
        r@ == join_spec(base@, rel@),
{
    let rn = rel.unicode_len();
    if rn > 0 && rel.get_char(0) == '/' {
        return rel.to_owned();
    }
    let bn = base.unicode_len();
    let mut out = base.to_owned();
    if bn > 0 && base.get_char(bn - 1) != '/' {
        push_char(&mut out, '/');
    }
    push_str(&mut out, rel);
    out
}

} // verus!
