//! Unix paths as byte strings: their components, containment of one path in
//! another, and the rule for paths that may be unpacked.
use vstd::prelude::*;

verus! {

/// The byte that separates the segments of a path.
pub const SEPARATOR: u8 = 47u8;

/// The byte that the names `.` and `..` are made of.
pub const DOT: u8 = 46u8;

/// One component of a path, in specifications.
pub enum ComponentView {
    RootDir,
    CurDir,
    ParentDir,
    Normal(Seq<u8>),
}

/// One component of a path.
pub enum PathComponent {
    /// The root directory that an absolute path starts from.
    RootDir,
    /// A leading `.`.
    CurDir,
    /// A `..`.
    ParentDir,
    /// Any other name.
    Normal(Vec<u8>),
}

impl View for PathComponent {
    type V = ComponentView;

    open spec fn view(&self) -> ComponentView {
        match self {
            PathComponent::RootDir => ComponentView::RootDir,
            PathComponent::CurDir => ComponentView::CurDir,
            PathComponent::ParentDir => ComponentView::ParentDir,
            PathComponent::Normal(name) => ComponentView::Normal(name@),
        }
    }
}

/// The views of a list of components.
pub open spec fn component_views(list: Seq<PathComponent>) -> Seq<ComponentView> {
    Seq::new(list.len(), |i: int| list[i]@)
}

/// The pieces of `path` between its separators, empty ones included.
pub open spec fn segments(path: Seq<u8>) -> Seq<Seq<u8>>
    decreases path.len(),
{
    if path.len() == 0 {
        seq![Seq::empty()]
    } else {
        let before = segments(path.drop_last());
        if path.last() == SEPARATOR {
            before.push(Seq::empty())
        } else {
            before.drop_last().push(before.last().push(path.last()))
        }
    }
}

/// The component that a segment names.
pub open spec fn named_component(segment: Seq<u8>) -> ComponentView {
    if segment == seq![DOT] {
        ComponentView::CurDir
    } else if segment == seq![DOT, DOT] {
        ComponentView::ParentDir
    } else {
        ComponentView::Normal(segment)
    }
}

/// The components that segments stand for: empty segments and every `.` but a
/// leading one are left out.
pub open spec fn segment_components(list: Seq<Seq<u8>>) -> Seq<ComponentView>
    decreases list.len(),
{
    if list.len() == 0 {
        Seq::empty()
    } else {
        let before = segment_components(list.drop_last());
        let segment = list.last();
        if segment.len() == 0 || (segment == seq![DOT] && list.len() > 1) {
            before
        } else {
            before.push(named_component(segment))
        }
    }
}

/// Does `path` start from the root directory?
pub open spec fn is_absolute(path: Seq<u8>) -> bool {
    path.len() > 0 && path[0] == SEPARATOR
}

/// The components of `path`.
pub open spec fn components(path: Seq<u8>) -> Seq<ComponentView> {
    let names = segment_components(segments(path));
    if is_absolute(path) {
        seq![ComponentView::RootDir] + names
    } else {
        names
    }
}

/// Does `path` name `base` or something below it, component by component?
pub open spec fn lies_within(path: Seq<u8>, base: Seq<u8>) -> bool {
    components(base).is_prefix_of(components(path))
}

/// Can `component` lead out of the directory that a path is resolved in?
pub open spec fn leads_out(component: ComponentView) -> bool {
    component is ParentDir || component is RootDir
}

/// Does `path` have a component that can lead out of the directory that it is
/// resolved in?
pub open spec fn is_unsafe_entry(path: Seq<u8>) -> bool {
    exists|i: int| 0 <= i < components(path).len() && leads_out(#[trigger] components(path)[i])
}

/// `name` resolved in the directory `base`.
pub open spec fn joined(base: Seq<u8>, name: Seq<u8>) -> Seq<u8> {
    if is_absolute(name) {
        name
    } else if base.len() == 0 || base.last() == SEPARATOR {
        base + name
    } else {
        base.push(SEPARATOR) + name
    }
}

/// Do the two paths name the same place, component by component?
pub open spec fn same_place(a: Seq<u8>, b: Seq<u8>) -> bool {
    components(a) == components(b)
}

/// `path` without what follows its last component.
pub open spec fn trimmed(path: Seq<u8>) -> Seq<u8>
    decreases path.len(),
{
    if path.len() > 0 && components(path.drop_last()) == components(path) {
        trimmed(path.drop_last())
    } else {
        path
    }
}

/// The longest beginning of `path` that has fewer than `n` components, without what
/// follows its last component.
pub open spec fn beginning(path: Seq<u8>, n: nat) -> Seq<u8>
    decreases path.len(),
{
    if path.len() == 0 || components(path).len() < n {
        trimmed(path)
    } else {
        beginning(path.drop_last(), n)
    }
}

/// The directory that `path` is in: none for a root directory and for the empty path.
pub open spec fn parent(path: Seq<u8>) -> Option<Seq<u8>> {
    let all = components(path);
    if all.len() == 0 || all.last() is RootDir {
        None
    } else {
        Some(beginning(path, all.len()))
    }
}

/// The name that `path` ends in, where its last component is a name.
pub open spec fn file_name(path: Seq<u8>) -> Option<Seq<u8>> {
    let all = components(path);
    if all.len() == 0 {
        None
    } else {
        match all.last() {
            ComponentView::Normal(name) => Some(name),
            _ => None,
        }
    }
}

/// Where the last dot of `name` is.
pub open spec fn last_dot(name: Seq<u8>) -> Option<int>
    decreases name.len(),
{
    if name.len() == 0 {
        None
    } else if name.last() == DOT {
        Some(name.len() - 1)
    } else {
        last_dot(name.drop_last())
    }
}

/// How long the part of `name` before its last dot is. A name without a dot, or with
/// none but a leading one, counts whole.
pub open spec fn stem_length(name: Seq<u8>) -> int {
    match last_dot(name) {
        Some(at) if at > 0 => at,
        _ => name.len() as int,
    }
}

/// `path` with the extension of its file name replaced by `extension`; a path without a
/// file name is kept.
pub open spec fn extended(path: Seq<u8>, extension: Seq<u8>) -> Seq<u8> {
    match file_name(path) {
        None => path,
        Some(name) => {
            let whole = trimmed(path);
            whole.take(whole.len() - name.len() + stem_length(name)).push(DOT) + extension
        },
    }
}

proof fn lemma_push_drop_last(list: Seq<Seq<u8>>, segment: Seq<u8>)
    ensures
        list.push(segment).drop_last() == list,
{
    assert(list.push(segment).drop_last() =~= list);
}

/// Records the segment `segment`, which follows the segments `before` of its path.
fn push_segment(
    list: &mut Vec<PathComponent>,
    segment: Vec<u8>,
    Ghost(before): Ghost<Seq<Seq<u8>>>,
    first: bool,
)
    requires
        first == (before.len() == 0),
        component_views(old(list)@) == segment_components(before),
    ensures
        component_views(final(list)@) == segment_components(before.push(segment@)),
{
    proof {
        lemma_push_drop_last(before, segment@);
    }
    if segment.len() == 0 {
        return;
    }
    if segment.len() == 1 && segment[0] == DOT {
        assert(segment@ == seq![DOT]);
        if first {
            list.push(PathComponent::CurDir);
            assert(component_views(list@) == component_views(old(list)@).push(ComponentView::CurDir));
        }
        return;
    }
    assert(segment@ != seq![DOT]);
    if segment.len() == 2 && segment[0] == DOT && segment[1] == DOT {
        assert(segment@ == seq![DOT, DOT]);
        list.push(PathComponent::ParentDir);
        assert(component_views(list@) == component_views(old(list)@).push(ComponentView::ParentDir));
        return;
    }
    assert(segment@ != seq![DOT, DOT]);
    let ghost name = segment@;
    list.push(PathComponent::Normal(segment));
    assert(component_views(list@) == component_views(old(list)@).push(ComponentView::Normal(name)));
}

/// The components of `path`.
pub fn path_components(path: &[u8]) -> (r: Vec<PathComponent>)
    ensures
        component_views(r@) == components(path@),
{
    let mut names: Vec<PathComponent> = Vec::new();
    let mut segment: Vec<u8> = Vec::new();
    let mut first: bool = true;
    let mut i: usize = 0;
    let ghost mut done: Seq<Seq<u8>> = Seq::empty();
    proof {
        assert(path@.take(0) == Seq::<u8>::empty());
        assert(component_views(names@) == segment_components(done));
        assert(segments(path@.take(0)) == done.push(segment@));
    }
    while i < path.len()
        invariant
            i <= path.len(),
            first == (done.len() == 0),
            component_views(names@) == segment_components(done),
            segments(path@.take(i as int)) == done.push(segment@),
        decreases path.len() - i,
    {
        let byte: u8 = path[i];
        proof {
            assert(path@.take(i + 1).drop_last() == path@.take(i as int));
            assert(path@.take(i + 1).last() == byte);
        }
        if byte == SEPARATOR {
            push_segment(&mut names, segment, Ghost(done), first);
            proof {
                done = segments(path@.take(i as int));
            }
            segment = Vec::new();
            first = false;
        } else {
            segment.push(byte);
            assert(segments(path@.take(i as int)).drop_last() == done);
        }
        i = i + 1;
    }
    assert(path@.take(i as int) == path@);
    push_segment(&mut names, segment, Ghost(done), first);
    if path.len() > 0 && path[0] == SEPARATOR {
        let mut all: Vec<PathComponent> = Vec::new();
        all.push(PathComponent::RootDir);
        let ghost tail = names@;
        all.append(&mut names);
        assert(component_views(all@) == seq![ComponentView::RootDir] + component_views(tail));
        all
    } else {
        names
    }
}

/// Are the two components the same?
fn same_component(a: &PathComponent, b: &PathComponent) -> (r: bool)
    ensures
        r == (a@ == b@),
{
    match (a, b) {
        (PathComponent::RootDir, PathComponent::RootDir) => true,
        (PathComponent::CurDir, PathComponent::CurDir) => true,
        (PathComponent::ParentDir, PathComponent::ParentDir) => true,
        (PathComponent::Normal(x), PathComponent::Normal(y)) => same_bytes(x, y),
        _ => false,
    }
}

/// Do the two byte strings have the same content?
fn same_bytes(a: &Vec<u8>, b: &Vec<u8>) -> (r: bool)
    ensures
        r == (a@ == b@),
{
    if a.len() != b.len() {
        return false;
    }
    let mut i: usize = 0;
    while i < a.len()
        invariant
            i <= a.len(),
            a.len() == b.len(),
            forall|k: int| 0 <= k < i ==> a[k] == b[k],
        decreases a.len() - i,
    {
        if a[i] != b[i] {
            return false;
        }
        i = i + 1;
    }
    assert(a@ == b@);
    true
}

/// Does `path` name `base` or something below it?
pub fn path_lies_within(path: &[u8], base: &[u8]) -> (r: bool)
    ensures
        r == lies_within(path@, base@),
{
    let outer = path_components(base);
    let inner = path_components(path);
    if outer.len() > inner.len() {
        return false;
    }
    let mut i: usize = 0;
    while i < outer.len()
        invariant
            i <= outer.len() <= inner.len(),
            component_views(outer@) == components(base@),
            component_views(inner@) == components(path@),
            forall|k: int| 0 <= k < i ==> components(base@)[k] == components(path@)[k],
        decreases outer.len() - i,
    {
        assert(component_views(outer@)[i as int] == outer[i as int]@);
        assert(component_views(inner@)[i as int] == inner[i as int]@);
        if !same_component(&outer[i], &inner[i]) {
            assert(components(path@).subrange(0, components(base@).len() as int)[i as int]
                != components(base@)[i as int]);
            return false;
        }
        i = i + 1;
    }
    assert(components(path@).subrange(0, components(base@).len() as int) == components(base@));
    true
}

/// Does `path` have a component that can lead out of the directory that it is
/// unpacked in?
pub fn is_unsafe_entry_path(path: &[u8]) -> (r: bool)
    ensures
        r == is_unsafe_entry(path@),
{
    let list = path_components(path);
    let mut i: usize = 0;
    while i < list.len()
        invariant
            i <= list.len(),
            component_views(list@) == components(path@),
            forall|k: int| 0 <= k < i ==> !leads_out(#[trigger] components(path@)[k]),
        decreases list.len() - i,
    {
        assert(component_views(list@)[i as int] == list[i as int]@);
        match &list[i] {
            PathComponent::RootDir | PathComponent::ParentDir => {
                assert(leads_out(components(path@)[i as int]));
                return true;
            },
            _ => {},
        }
        i = i + 1;
    }
    false
}

/// `name` resolved in the directory `base`.
pub fn join_path(base: &[u8], name: &[u8]) -> (r: Vec<u8>)
    ensures
        r@ == joined(base@, name@),
{
    let mut r: Vec<u8> = Vec::new();
    if !(name.len() > 0 && name[0] == SEPARATOR) {
        r.extend_from_slice(base);
        if base.len() > 0 && base[base.len() - 1] != SEPARATOR {
            r.push(SEPARATOR);
        }
    }
    r.extend_from_slice(name);
    assert(r@ == joined(base@, name@));
    r
}

/// Are the two lists of components the same?
fn same_components(a: &Vec<PathComponent>, b: &Vec<PathComponent>) -> (r: bool)
    ensures
        r == (component_views(a@) == component_views(b@)),
{
    if a.len() != b.len() {
        assert(component_views(a@).len() != component_views(b@).len());
        return false;
    }
    let mut i: usize = 0;
    while i < a.len()
        invariant
            i <= a.len(),
            a.len() == b.len(),
            forall|k: int| 0 <= k < i ==> component_views(a@)[k] == component_views(b@)[k],
        decreases a.len() - i,
    {
        assert(component_views(a@)[i as int] == a[i as int]@);
        assert(component_views(b@)[i as int] == b[i as int]@);
        if !same_component(&a[i], &b[i]) {
            return false;
        }
        i = i + 1;
    }
    assert(component_views(a@) =~= component_views(b@));
    true
}

/// Do the two paths name the same place?
pub fn is_same_place(a: &[u8], b: &[u8]) -> (r: bool)
    ensures
        r == same_place(a@, b@),
{
    same_components(&path_components(a), &path_components(b))
}

/// `path` without what follows its last component.
fn trim_path(path: &[u8]) -> (r: Vec<u8>)
    ensures
        r@ == trimmed(path@),
{
    let all = path_components(path);
    let mut end: usize = path.len();
    assert(path@.take(end as int) == path@);
    while end > 0
        invariant_except_break
            trimmed(path@.take(end as int)) == trimmed(path@),
        invariant
            end <= path.len(),
            component_views(all@) == components(path@),
            components(path@.take(end as int)) == components(path@),
        ensures
            path@.take(end as int) == trimmed(path@),
        decreases end,
    {
        let shorter = vstd::slice::slice_subrange(path, 0, end - 1);
        assert(shorter@ == path@.take(end as int).drop_last());
        assert(shorter@ == path@.take(end - 1));
        if !same_components(&path_components(shorter), &all) {
            break;
        }
        end = end - 1;
    }
    let mut r: Vec<u8> = Vec::new();
    r.extend_from_slice(vstd::slice::slice_subrange(path, 0, end));
    assert(r@ == path@.take(end as int));
    r
}

/// The directory that `path` is in.
pub fn parent_path(path: &[u8]) -> (r: Option<Vec<u8>>)
    ensures
        match r {
            Some(directory) => parent(path@) == Some(directory@),
            None => parent(path@) is None,
        },
{
    let all = path_components(path);
    assert(components(path@).len() == all.len());
    if all.len() == 0 {
        return None;
    }
    assert(component_views(all@).last() == all[all.len() - 1]@);
    match &all[all.len() - 1] {
        PathComponent::RootDir => {
            return None;
        },
        _ => {},
    }
    let mut end: usize = path.len();
    assert(path@.take(end as int) == path@);
    while end > 0
        invariant_except_break
            beginning(path@.take(end as int), all.len() as nat) == beginning(
                path@,
                all.len() as nat,
            ),
        invariant
            end <= path.len(),
        ensures
            trimmed(path@.take(end as int)) == beginning(path@, all.len() as nat),
        decreases end,
    {
        let shorter = vstd::slice::slice_subrange(path, 0, end);
        assert(shorter@ == path@.take(end as int));
        let part = path_components(shorter);
        assert(components(shorter@).len() == part.len());
        if part.len() < all.len() {
            break;
        }
        assert(path@.take(end as int).drop_last() == path@.take(end - 1));
        end = end - 1;
    }
    let shorter = vstd::slice::slice_subrange(path, 0, end);
    assert(shorter@ == path@.take(end as int));
    Some(trim_path(shorter))
}

/// The name that `path` ends in.
pub fn path_file_name(path: &[u8]) -> (r: Option<Vec<u8>>)
    ensures
        match r {
            Some(name) => file_name(path@) == Some(name@),
            None => file_name(path@) is None,
        },
{
    let mut all = path_components(path);
    assert(components(path@).len() == all.len());
    let ghost before = all@;
    match all.pop() {
        None => None,
        Some(last) => {
            assert(component_views(before).last() == last@);
            match last {
                PathComponent::Normal(name) => Some(name),
                _ => None,
            }
        },
    }
}

/// How long the part of `name` before its last dot is.
fn stem_end(name: &Vec<u8>) -> (r: usize)
    ensures
        r == stem_length(name@),
        r <= name.len(),
{
    let mut i: usize = name.len();
    assert(name@.take(i as int) == name@);
    while i > 0
        invariant
            i <= name.len(),
            last_dot(name@.take(i as int)) == last_dot(name@),
        decreases i,
    {
        assert(name@.take(i as int).drop_last() == name@.take(i - 1));
        i = i - 1;
        if name[i] == DOT {
            return if i > 0 {
                i
            } else {
                name.len()
            };
        }
    }
    name.len()
}

/// `path` with the extension of its file name replaced by `extension`.
pub fn path_with_extension(path: &[u8], extension: &[u8]) -> (r: Vec<u8>)
    ensures
        r@ == extended(path@, extension@),
{
    match path_file_name(path) {
        None => {
            let mut r: Vec<u8> = Vec::new();
            r.extend_from_slice(path);
            assert(r@ == path@);
            r
        },
        Some(name) => {
            let mut r = trim_path(path);
            proof {
                lemma_trimmed_keeps_components(path@);
                law_file_name_is_one_name(r@);
            }
            let end: usize = r.len() - name.len() + stem_end(&name);
            let ghost whole = r@;
            r.truncate(end);
            assert(r@ == whole.take(end as int));
            r.push(DOT);
            r.extend_from_slice(extension);
            assert(r@ == extended(path@, extension@));
            r
        },
    }
}

proof fn lemma_trimmed_keeps_components(path: Seq<u8>)
    ensures
        components(trimmed(path)) == components(path),
        trimmed(trimmed(path)) == trimmed(path),
    decreases path.len(),
{
    if path.len() > 0 && components(path.drop_last()) == components(path) {
        lemma_trimmed_keeps_components(path.drop_last());
    }
}

proof fn lemma_segments_fit(path: Seq<u8>)
    ensures
        segments(path).len() > 0,
        forall|i: int|
            0 <= i < segments(path).len() ==> (#[trigger] segments(path)[i]).len() <= path.len(),
        forall|i: int, k: int|
            0 <= i < segments(path).len() && 0 <= k < segments(path)[i].len()
                ==> #[trigger] segments(path)[i][k] != SEPARATOR,
    decreases path.len(),
{
    if path.len() > 0 {
        lemma_segments_fit(path.drop_last());
        let before = segments(path.drop_last());
        assert forall|i: int| 0 <= i < segments(path).len() implies (#[trigger] segments(
            path,
        )[i]).len() <= path.len() by {
            if i < before.len() - 1 {
                assert(segments(path)[i] == before[i]);
            }
        }
        assert forall|i: int, k: int|
            0 <= i < segments(path).len() && 0 <= k < segments(path)[i].len() implies #[trigger] segments(
            path,
        )[i][k] != SEPARATOR by {
            if i < before.len() - 1 {
                assert(segments(path)[i] == before[i]);
            } else if path.last() == SEPARATOR {
                if i == before.len() - 1 {
                    assert(segments(path)[i] == before[i]);
                }
            } else {
                assert(segments(path)[i] == before[i].push(path.last()));
                if k < before[i].len() {
                    assert(before[i][k] != SEPARATOR);
                }
            }
        }
    }
}

/// Every name among the components is a segment.
proof fn lemma_names_are_segments(list: Seq<Seq<u8>>, i: int)
    requires
        0 <= i < segment_components(list).len(),
        segment_components(list)[i] is Normal,
    ensures
        list.contains(segment_components(list)[i]->Normal_0),
    decreases list.len(),
{
    let before = segment_components(list.drop_last());
    if i < before.len() {
        lemma_names_are_segments(list.drop_last(), i);
        let name = before[i]->Normal_0;
        let k = choose|k: int| 0 <= k < list.drop_last().len() && list.drop_last()[k] == name;
        assert(list[k] == name);
    } else {
        assert(list[list.len() - 1] == list.last());
    }
}

/// The name that a path ends in is the name of one file or directory.
pub proof fn law_file_name_is_one_name(path: Seq<u8>)
    requires
        file_name(path) is Some,
    ensures
        ({
            let name = file_name(path)->0;
            &&& 0 < name.len() <= path.len()
            &&& forall|k: int| 0 <= k < name.len() ==> name[k] != SEPARATOR
            &&& name != seq![DOT]
            &&& name != seq![DOT, DOT]
        }),
{
    let name = file_name(path)->0;
    let names = segment_components(segments(path));
    assert(components(path).last() == names.last());
    lemma_names_are_segments(segments(path), names.len() - 1);
    lemma_segments_fit(path);
    let i = choose|i: int| 0 <= i < segments(path).len() && segments(path)[i] == name;
    assert(segments(path)[i].len() <= path.len());
    assert forall|k: int| 0 <= k < name.len() implies name[k] != SEPARATOR by {
        assert(segments(path)[i][k] != SEPARATOR);
    }
    lemma_names_are_proper(segments(path));
}

proof fn lemma_names_are_proper(list: Seq<Seq<u8>>)
    ensures
        forall|i: int|
            0 <= i < segment_components(list).len() && (
            #[trigger] segment_components(list)[i]) is Normal ==> {
                let name = segment_components(list)[i]->Normal_0;
                name.len() > 0 && name != seq![DOT] && name != seq![DOT, DOT]
            },
    decreases list.len(),
{
    if list.len() > 0 {
        lemma_names_are_proper(list.drop_last());
    }
}

/// One byte more changes the last component or adds one.
proof fn lemma_byte_added(path: Seq<u8>)
    requires
        path.len() > 0,
    ensures
        ({
            let all = components(path);
            let before = components(path.drop_last());
            &&& all.len() == before.len() || all.len() == before.len() + 1
            &&& all.len() == before.len() + 1 ==> all.drop_last() == before
            &&& all.len() == before.len() && all.len() > 0 ==> all.drop_last()
                == before.drop_last()
        }),
{
    let shorter = path.drop_last();
    let list = segments(shorter);
    lemma_segments_nonempty(shorter);
    let all = components(path);
    let before = components(shorter);
    if path.last() == SEPARATOR {
        assert(path == shorter.push(SEPARATOR));
        lemma_trailing_separator(shorter);
        if shorter.len() == 0 {
            lemma_no_components(shorter);
            assert(all.drop_last() =~= before);
        } else {
            assert(path[0] == shorter[0]);
            assert(all == before);
        }
    } else {
        let kept = segment_components(list.drop_last());
        let added = list.last().push(path.last());
        lemma_push_drop_last(list.drop_last(), added);
        assert(segments(path) == list.drop_last().push(added));
        if shorter.len() > 0 {
            assert(path[0] == shorter[0]);
        }
        let names = segment_components(segments(path));
        let shorter_names = segment_components(list);
        assert(names == kept || names == kept.push(named_component(added)));
        assert(shorter_names == kept || shorter_names == kept.push(named_component(list.last())));
        assert(is_absolute(path) == is_absolute(shorter));
        if all.len() == before.len() + 1 {
            assert(all.drop_last() =~= before);
        } else if names.len() > kept.len() {
            assert(names.drop_last() =~= shorter_names.drop_last());
            assert(all.drop_last() =~= before.drop_last());
        } else {
            assert(added == seq![DOT]);
            assert(list.last().len() + 1 == seq![DOT].len());
            assert(all =~= before);
        }
    }
}

/// The empty path has no components.
proof fn lemma_no_components(path: Seq<u8>)
    requires
        path.len() == 0,
    ensures
        components(path).len() == 0,
{
    assert(segments(path) == seq![Seq::<u8>::empty()]);
    assert(segments(path).drop_last() =~= Seq::<Seq<u8>>::empty());
    assert(segments(path).last() =~= Seq::<u8>::empty());
    assert(segment_components(segments(path).drop_last()).len() == 0);
}

proof fn lemma_beginning_components(path: Seq<u8>)
    requires
        components(path).len() > 0,
    ensures
        components(beginning(path, components(path).len())) == components(path).drop_last(),
    decreases path.len(),
{
    let n = components(path).len();
    if path.len() == 0 {
        lemma_no_components(path);
    } else {
        let shorter = path.drop_last();
        lemma_byte_added(path);
        if components(shorter).len() < n {
            assert(beginning(shorter, n) == trimmed(shorter));
            lemma_trimmed_keeps_components(shorter);
        } else {
            lemma_beginning_components(shorter);
        }
    }
}

/// The directory that a path is in has all of the path's components but the last.
pub proof fn law_parent_drops_last_component(path: Seq<u8>)
    requires
        parent(path) is Some,
    ensures
        components(parent(path)->0) == components(path).drop_last(),
{
    lemma_beginning_components(path);
}

/// Bytes without a separator extend the last segment.
proof fn lemma_last_segment_extended(path: Seq<u8>, more: Seq<u8>)
    requires
        forall|k: int| 0 <= k < more.len() ==> more[k] != SEPARATOR,
    ensures
        segments(path + more) == segments(path).drop_last().push(segments(path).last() + more),
    decreases more.len(),
{
    let list = segments(path);
    lemma_segments_nonempty(path);
    if more.len() == 0 {
        assert(path + more =~= path);
        assert(list.last() + more =~= list.last());
        assert(list.drop_last().push(list.last()) =~= list);
    } else {
        lemma_last_segment_extended(path, more.drop_last());
        assert((path + more).drop_last() =~= path + more.drop_last());
        assert((list.last() + more.drop_last()).push(more.last()) =~= list.last() + more);
        lemma_push_drop_last(list.drop_last(), list.last() + more.drop_last());
    }
}

/// A trimmed path that ends in a name ends in the bytes of that name.
proof fn lemma_trimmed_ends_in_name(path: Seq<u8>)
    requires
        trimmed(path) == path,
        file_name(path) is Some,
    ensures
        segments(path).last() == file_name(path)->0,
{
    let name = file_name(path)->0;
    let list = segments(path);
    let names = segment_components(list);
    lemma_segments_nonempty(path);
    assert(components(path).last() == names.last());
    if path.len() == 0 {
        lemma_no_components(path);
    } else {
        let shorter = path.drop_last();
        lemma_segments_nonempty(shorter);
        if shorter.len() > 0 {
            assert(shorter[0] == path[0]);
        }
        assert(components(shorter) != components(path)) by {
            if components(shorter) == components(path) {
                lemma_trimmed_shrinks(shorter);
            }
        }
        if path.last() == SEPARATOR {
            assert(path == shorter.push(SEPARATOR));
            lemma_trailing_separator(shorter);
            if shorter.len() == 0 {
                lemma_no_components(shorter);
                assert(names == segment_components(segments(shorter)));
            }
        } else {
            let last = segments(shorter).last().push(path.last());
            lemma_push_drop_last(segments(shorter).drop_last(), last);
            if last == seq![DOT] && list.len() > 1 {
                assert(segments(shorter).last().len() + 1 == seq![DOT].len());
                assert(segment_components(segments(shorter)) == names);
            }
        }
    }
}

proof fn lemma_trimmed_shrinks(path: Seq<u8>)
    ensures
        trimmed(path).len() <= path.len(),
    decreases path.len(),
{
    if path.len() > 0 && components(path.drop_last()) == components(path) {
        lemma_trimmed_shrinks(path.drop_last());
    }
}

/// Another extension changes the file name and nothing else: the path stays in its
/// directory.
pub proof fn law_extension_keeps_directory(path: Seq<u8>, extension: Seq<u8>)
    requires
        file_name(path) is Some,
        extension.len() > 0,
        forall|k: int| 0 <= k < extension.len() ==> extension[k] != SEPARATOR,
    ensures
        ({
            let name = file_name(path)->0;
            components(extended(path, extension)) == components(path).drop_last().push(
                ComponentView::Normal(name.take(stem_length(name)).push(DOT) + extension),
            )
        }),
{
    let name = file_name(path)->0;
    let whole = trimmed(path);
    lemma_trimmed_keeps_components(path);
    law_file_name_is_one_name(whole);
    lemma_trimmed_ends_in_name(whole);
    lemma_stem_fits(name);
    let stem = name.take(stem_length(name));
    let base = whole.take(whole.len() - name.len());
    let more = stem.push(DOT) + extension;
    lemma_segments_nonempty(base);
    lemma_ends_in_last_segment(whole);
    assert(whole =~= base + name);
    lemma_last_segment_extended(base, name);
    assert((segments(base).last() + name).len() == name.len());
    assert forall|k: int| 0 <= k < more.len() implies more[k] != SEPARATOR by {
        if k < stem.len() {
            assert(more[k] == name[k]);
        } else if k > stem.len() {
            assert(more[k] == extension[k - stem.len() - 1]);
        }
    }
    assert(more.len() > 2);
    lemma_name_after_separator(base, name);
    lemma_name_after_separator(base, more);
    assert(extended(path, extension) =~= base + more);
    assert(components(path).drop_last() =~= components(base));
}

/// A name that starts a segment is a component of its own.
proof fn lemma_name_after_separator(base: Seq<u8>, name: Seq<u8>)
    requires
        segments(base).last().len() == 0,
        name.len() > 0,
        forall|k: int| 0 <= k < name.len() ==> name[k] != SEPARATOR,
        name != seq![DOT],
        name != seq![DOT, DOT],
    ensures
        components(base + name) == components(base).push(ComponentView::Normal(name)),
{
    let list = segments(base).drop_last();
    lemma_segments_nonempty(base);
    lemma_last_segment_extended(base, name);
    assert(segments(base).last() + name =~= name);
    lemma_push_drop_last(list, name);
    assert(segment_components(segments(base)) == segment_components(list));
    if base.len() > 0 {
        assert((base + name)[0] == base[0]);
    } else {
        assert((base + name)[0] == name[0]);
    }
    assert(components(base + name) =~= components(base).push(ComponentView::Normal(name)));
}

/// Where a new extension has a dot of its own, the file name it makes is another one: the
/// path does not name the same file as before.
pub proof fn law_dotted_extension_makes_another_name(path: Seq<u8>, extension: Seq<u8>, at: int)
    requires
        file_name(path) is Some,
        0 <= at < extension.len(),
        extension[at] == DOT,
        forall|k: int| 0 <= k < extension.len() ==> extension[k] != SEPARATOR,
    ensures
        file_name(extended(path, extension)) is Some,
        file_name(extended(path, extension)) != file_name(path),
{
    let name = file_name(path)->0;
    let stem = name.take(stem_length(name));
    let made = stem.push(DOT) + extension;
    law_extension_keeps_directory(path, extension);
    law_file_name_is_one_name(path);
    lemma_stem_fits(name);
    assert(components(extended(path, extension)).last() == ComponentView::Normal(made));
    assert(made[stem.len() + 1 + at] == DOT);
    lemma_last_dot_is_last(made, stem.len() + 1 + at);
}

proof fn lemma_last_dot_is_last(name: Seq<u8>, at: int)
    requires
        0 <= at < name.len(),
        name[at] == DOT,
    ensures
        last_dot(name) is Some,
        last_dot(name)->0 >= at,
    decreases name.len(),
{
    if name.last() != DOT {
        lemma_last_dot_is_last(name.drop_last(), at);
    }
}

proof fn lemma_stem_fits(name: Seq<u8>)
    requires
        name.len() > 0,
    ensures
        0 < stem_length(name) <= name.len(),
{
    lemma_last_dot_fits(name);
}

proof fn lemma_last_dot_fits(name: Seq<u8>)
    ensures
        last_dot(name) is Some ==> 0 <= last_dot(name)->0 < name.len(),
    decreases name.len(),
{
    if name.len() > 0 {
        lemma_last_dot_fits(name.drop_last());
    }
}

/// A path ends in the bytes of its last segment.
proof fn lemma_ends_in_last_segment(path: Seq<u8>)
    ensures
        segments(path).len() > 0,
        segments(path).last().len() <= path.len(),
        path.skip(path.len() - segments(path).last().len()) == segments(path).last(),
    decreases path.len(),
{
    if path.len() > 0 {
        let shorter = path.drop_last();
        lemma_ends_in_last_segment(shorter);
        if path.last() == SEPARATOR {
            assert(path.skip(path.len() as int) =~= Seq::<u8>::empty());
        } else {
            let last = segments(shorter).last();
            assert(segments(path).last() == last.push(path.last()));
            assert(path.skip(path.len() - (last.len() + 1)) =~= shorter.skip(
                shorter.len() - last.len(),
            ).push(path.last()));
        }
    } else {
        assert(path.skip(0) =~= Seq::<u8>::empty());
    }
}

proof fn lemma_segments_nonempty(path: Seq<u8>)
    ensures
        segments(path).len() > 0,
{
}

proof fn lemma_segments_join(a: Seq<u8>, b: Seq<u8>)
    ensures
        segments(a.push(SEPARATOR) + b) == segments(a) + segments(b),
    decreases b.len(),
{
    let whole = a.push(SEPARATOR) + b;
    lemma_segments_nonempty(a);
    if b.len() == 0 {
        assert(whole == a.push(SEPARATOR));
        assert(whole.drop_last() == a);
        assert(segments(whole) == segments(a) + segments(b));
    } else {
        lemma_segments_nonempty(b.drop_last());
        lemma_segments_join(a, b.drop_last());
        assert(whole.drop_last() == a.push(SEPARATOR) + b.drop_last());
        assert(whole.last() == b.last());
        let inner = segments(b.drop_last());
        assert((segments(a) + inner).last() == inner.last());
        assert((segments(a) + inner).drop_last() == segments(a) + inner.drop_last());
        assert(segments(whole) == segments(a) + segments(b));
    }
}

/// The components of a directory path are those of the path with a trailing
/// separator.
proof fn lemma_trailing_separator(a: Seq<u8>)
    ensures
        segment_components(segments(a.push(SEPARATOR))) == segment_components(segments(a)),
{
    assert(a.push(SEPARATOR).drop_last() == a);
    assert(segments(a).push(Seq::empty()).drop_last() == segments(a));
}

/// Components of appended segments: the first part is kept, and what is added
/// comes from the second.
proof fn lemma_append_segments(x: Seq<Seq<u8>>, y: Seq<Seq<u8>>)
    requires
        x.len() > 0,
    ensures
        segment_components(x).is_prefix_of(segment_components(x + y)),
        forall|i: int|
            segment_components(x).len() <= i < segment_components(x + y).len()
                ==> segment_components(y).contains(#[trigger] segment_components(x + y)[i]),
    decreases y.len(),
{
    if y.len() == 0 {
        assert(x + y == x);
    } else {
        lemma_append_segments(x, y.drop_last());
        assert((x + y).drop_last() == x + y.drop_last());
        let before = segment_components(x + y.drop_last());
        let inner = segment_components(y.drop_last());
        let after = segment_components(x + y);
        let whole = segment_components(y);
        assert(inner.is_prefix_of(whole));
        assert forall|i: int| segment_components(x).len() <= i < after.len() implies whole.contains(
            #[trigger] after[i],
        ) by {
            if i < before.len() {
                assert(inner.contains(before[i]));
                let k = choose|k: int| 0 <= k < inner.len() && inner[k] == before[i];
                assert(whole[k] == inner[k]);
            } else {
                assert(whole.last() == after[i]);
            }
        }
        assert(segment_components(x).is_prefix_of(before));
        assert(before.is_prefix_of(after));
        assert(after.subrange(0, segment_components(x).len() as int) == segment_components(x));
    }
}

/// A path that is not refused stays below the directory that it is unpacked
/// in: the path that it names there starts with that directory's components, and
/// none of those added leads out of it again.
pub proof fn law_safe_entry_stays_below(directory: Seq<u8>, entry: Seq<u8>)
    requires
        !is_unsafe_entry(entry),
    ensures
        lies_within(joined(directory, entry), directory),
        forall|i: int|
            components(directory).len() <= i < components(joined(directory, entry)).len()
                ==> !leads_out(#[trigger] components(joined(directory, entry))[i]),
{
    if is_absolute(entry) {
        assert(leads_out(components(entry)[0]));
    } else {
        let target = joined(directory, entry);
        let added = segment_components(segments(entry));
        assert(components(entry) == added);
        if directory.len() == 0 {
            assert(target == entry);
            assert(segments(directory) == seq![Seq::<u8>::empty()]);
            assert(segments(directory).drop_last() =~= Seq::<Seq<u8>>::empty());
            assert(segments(directory).last() =~= Seq::<u8>::empty());
            assert(segment_components(segments(directory).drop_last()).len() == 0);
            assert(components(directory).len() == 0);
            assert(components(target).subrange(0, 0) == components(directory));
        } else {
            let base = if directory.last() == SEPARATOR {
                directory.drop_last()
            } else {
                directory
            };
            assert(target == base.push(SEPARATOR) + entry);
            lemma_segments_join(base, entry);
            lemma_segments_nonempty(base);
            lemma_append_segments(segments(base), segments(entry));
            lemma_trailing_separator(base);
            if directory.last() == SEPARATOR {
                assert(directory == base.push(SEPARATOR));
            }
            assert(segment_components(segments(directory)) == segment_components(segments(base)));
            let names = segment_components(segments(directory));
            let all = segment_components(segments(target));
            assert(is_absolute(target) == is_absolute(directory)) by {
                assert(target[0] == directory[0]);
            }
            let shift: int = if is_absolute(directory) {
                1
            } else {
                0
            };
            assert forall|i: int|
                components(directory).len() <= i < components(target).len() implies !leads_out(
                #[trigger] components(target)[i],
            ) by {
                assert(components(target)[i] == all[i - shift]);
                assert(added.contains(all[i - shift]));
                let k = choose|k: int| 0 <= k < added.len() && added[k] == all[i - shift];
                assert(!leads_out(components(entry)[k]));
            }
            assert(all.subrange(0, names.len() as int) == names);
            assert(components(target).subrange(0, components(directory).len() as int)
                == components(directory)) by {
                assert forall|i: int| 0 <= i < components(directory).len() implies #[trigger] components(
                    target,
                )[i] == components(directory)[i] by {
                    if i >= shift {
                        assert(all.subrange(0, names.len() as int)[i - shift] == names[i - shift]);
                    }
                }
            }
        }
    }
}

proof fn lemma_one_segment(path: Seq<u8>)
    requires
        forall|i: int| 0 <= i < path.len() ==> path[i] != SEPARATOR,
    ensures
        segments(path) == seq![path],
    decreases path.len(),
{
    if path.len() == 0 {
        assert(path =~= Seq::<u8>::empty());
    } else {
        lemma_one_segment(path.drop_last());
        let before = segments(path.drop_last());
        assert(before.drop_last() =~= Seq::<Seq<u8>>::empty());
        assert(before.last().push(path.last()) =~= path);
        assert(segments(path) =~= seq![path]);
    }
}

/// Resolving a plain name in a directory adds that name to the directory's components.
pub proof fn law_joined_name_is_added(directory: Seq<u8>, name: Seq<u8>)
    requires
        name.len() > 0,
        forall|i: int| 0 <= i < name.len() ==> name[i] != SEPARATOR,
        name != seq![DOT],
        name != seq![DOT, DOT],
    ensures
        components(joined(directory, name)) == components(directory).push(
            ComponentView::Normal(name),
        ),
        lies_within(joined(directory, name), directory),
{
    let target = joined(directory, name);
    lemma_one_segment(name);
    if directory.len() == 0 {
        assert(target == name);
        assert(segments(directory) == seq![Seq::<u8>::empty()]);
        assert(segments(directory).drop_last() =~= Seq::<Seq<u8>>::empty());
        assert(segments(directory).last() =~= Seq::<u8>::empty());
        assert(segment_components(segments(directory).drop_last()).len() == 0);
        assert(segment_components(segments(directory)) =~= Seq::<ComponentView>::empty());
        assert(segments(name).drop_last() =~= Seq::<Seq<u8>>::empty());
        assert(segment_components(segments(name).drop_last()) =~= Seq::<ComponentView>::empty());
        assert(segment_components(segments(name)) =~= seq![ComponentView::Normal(name)]);
        assert(components(target) =~= components(directory).push(ComponentView::Normal(name)));
    } else {
        let base = if directory.last() == SEPARATOR {
            directory.drop_last()
        } else {
            directory
        };
        assert(target == base.push(SEPARATOR) + name);
        lemma_segments_join(base, name);
        lemma_segments_nonempty(base);
        lemma_trailing_separator(base);
        if directory.last() == SEPARATOR {
            assert(directory == base.push(SEPARATOR));
        }
        assert(segments(target) =~= segments(base).push(name));
        lemma_push_drop_last(segments(base), name);
        assert(segment_components(segments(target)) == segment_components(segments(base)).push(
            ComponentView::Normal(name),
        ));
        assert(target[0] == directory[0]);
        assert(components(target) =~= components(directory).push(ComponentView::Normal(name)));
    }
    assert(components(target).subrange(0, components(directory).len() as int) =~= components(
        directory,
    ));
}

/// Containment is reflexive.
pub proof fn law_lies_within_itself(path: Seq<u8>)
    ensures
        lies_within(path, path),
{
    assert(components(path).subrange(0, components(path).len() as int) == components(path));
}

/// Containment is transitive.
pub proof fn law_lies_within_transitive(a: Seq<u8>, b: Seq<u8>, c: Seq<u8>)
    requires
        lies_within(a, b),
        lies_within(b, c),
    ensures
        lies_within(a, c),
{
    assert(components(a).subrange(0, components(c).len() as int) == components(c)) by {
        assert forall|i: int| 0 <= i < components(c).len() implies components(a)[i] == components(
            c,
        )[i] by {
            assert(components(b).subrange(0, components(c).len() as int)[i] == components(c)[i]);
            assert(components(a).subrange(0, components(b).len() as int)[i] == components(b)[i]);
        }
    }
}

/// An entry is unsafe exactly when one of the components of its path is the root or the
/// parent directory.
pub proof fn law_unsafe_entry_names_root_or_parent(path: Seq<u8>)
    ensures
        is_unsafe_entry(path) <==> components(path).contains(ComponentView::ParentDir)
            || components(path).contains(ComponentView::RootDir),
{
    let names = components(path);
    if is_unsafe_entry(path) {
        let i = choose|i: int| 0 <= i < names.len() && leads_out(#[trigger] names[i]);
        assert(names[i] == ComponentView::ParentDir || names[i] == ComponentView::RootDir);
        assert(names.contains(names[i]));
    }
    if names.contains(ComponentView::ParentDir) {
        let i = choose|i: int| 0 <= i < names.len() && names[i] == ComponentView::ParentDir;
        assert(leads_out(names[i]));
    }
    if names.contains(ComponentView::RootDir) {
        let i = choose|i: int| 0 <= i < names.len() && names[i] == ComponentView::RootDir;
        assert(leads_out(names[i]));
    }
}

/// In specifications a component is what it is, with the name that it has.
pub proof fn law_component_is_seen_as_it_is(name: Vec<u8>, list: Seq<PathComponent>, i: int)
    ensures
        PathComponent::RootDir@ == ComponentView::RootDir,
        PathComponent::CurDir@ == ComponentView::CurDir,
        PathComponent::ParentDir@ == ComponentView::ParentDir,
        PathComponent::Normal(name)@ == ComponentView::Normal(name@),
        component_views(list).len() == list.len(),
        0 <= i < list.len() ==> component_views(list)[i] == list[i]@,
{
}

/// Does `name` hold no separator?
pub open spec fn is_undivided(name: Seq<u8>) -> bool {
    forall|k: int| 0 <= k < name.len() ==> name[k] != SEPARATOR
}

/// A path without a separator is one component: the current directory if it is a dot, the
/// parent directory if it is two, and else the name that it is. The empty path has none.
pub proof fn law_path_without_separator_is_one_component(name: Seq<u8>)
    requires
        is_undivided(name),
    ensures
        name.len() == 0 ==> components(name).len() == 0,
        name == seq![DOT] ==> components(name) == seq![ComponentView::CurDir],
        name == seq![DOT, DOT] ==> components(name) == seq![ComponentView::ParentDir],
        name.len() > 0 && name != seq![DOT] && name != seq![DOT, DOT] ==> components(name) == seq![
            ComponentView::Normal(name),
        ],
{
    if name.len() == 0 {
        lemma_no_components(name);
    } else {
        lemma_one_segment(name);
        let none = Seq::<Seq<u8>>::empty();
        assert(segments(name).drop_last() =~= none);
        assert(segment_components(none) =~= Seq::<ComponentView>::empty());
        assert(segments(name).last() == name);
        assert(name[0] != SEPARATOR);
        assert(seq![DOT].len() == 1 && seq![DOT, DOT].len() == 2);
        assert(components(name) =~= seq![named_component(name)]);
    }
}

/// What follows the last separator of a path adds one component to those before it: the
/// parent directory if it is two dots, nothing if it is empty or one dot, and else the name
/// that it is. A path with nothing before that separator starts from the root directory.
pub proof fn law_last_segment_is_added(before: Seq<u8>, name: Seq<u8>)
    requires
        is_undivided(name),
    ensures
        ({
            let all = components(before.push(SEPARATOR) + name);
            let start = if before.len() == 0 {
                seq![ComponentView::RootDir]
            } else {
                components(before)
            };
            &&& name.len() == 0 ==> all == start
            &&& name == seq![DOT] ==> all == start
            &&& name == seq![DOT, DOT] ==> all == start.push(ComponentView::ParentDir)
            &&& name.len() > 0 && name != seq![DOT] && name != seq![DOT, DOT] ==> all
                == start.push(ComponentView::Normal(name))
        }),
{
    let path = before.push(SEPARATOR) + name;
    let names = segment_components(segments(before));
    lemma_segments_join(before, name);
    lemma_one_segment(name);
    lemma_segments_nonempty(before);
    assert(segments(path) =~= segments(before).push(name));
    lemma_push_drop_last(segments(before), name);
    assert(seq![DOT].len() == 1 && seq![DOT, DOT].len() == 2);
    if before.len() == 0 {
        lemma_no_components(before);
        assert(path[0] == SEPARATOR);
        assert(names.len() == 0);
    } else {
        assert(path[0] == before[0]);
    }
    let start = if before.len() == 0 {
        seq![ComponentView::RootDir]
    } else {
        components(before)
    };
    assert(start =~= if is_absolute(path) {
        seq![ComponentView::RootDir] + names
    } else {
        names
    });
    if name.len() == 0 || name == seq![DOT] {
        assert(components(path) =~= start);
    } else {
        assert(components(path) =~= start.push(named_component(name)));
    }
}

/// A path lies within another exactly when its components are those of the other, followed
/// by any more.
pub proof fn law_path_within_goes_on_from_base(path: Seq<u8>, base: Seq<u8>)
    ensures
        lies_within(path, base) <==> exists|more: Seq<ComponentView>|
            components(path) == #[trigger] (components(base) + more),
{
    let n = components(base).len() as int;
    if lies_within(path, base) {
        assert(components(path) =~= components(base) + components(path).skip(n));
    }
    if exists|more: Seq<ComponentView>| components(path) == #[trigger] (components(base) + more) {
        let more = choose|more: Seq<ComponentView>|
            components(path) == #[trigger] (components(base) + more);
        assert((components(base) + more).take(n) =~= components(base));
        assert(components(base) =~= components(path).subrange(0, n));
    }
}

/// Two paths name the same place exactly when each lies within the other.
pub proof fn law_same_place_is_within_both_ways(a: Seq<u8>, b: Seq<u8>)
    ensures
        same_place(a, b) <==> lies_within(a, b) && lies_within(b, a),
        same_place(a, b) <==> components(a) == components(b),
{
    if lies_within(a, b) && lies_within(b, a) {
        assert(components(a) =~= components(b));
    }
    if same_place(a, b) {
        law_lies_within_itself(a);
    }
}

/// A name that starts with a separator replaces the directory that it is resolved in; any
/// other follows that directory, with one separator between them unless the directory is
/// empty or ends in one.
pub proof fn law_joined_path_follows_its_directory(base: Seq<u8>, name: Seq<u8>)
    ensures
        name.len() > 0 && name[0] == SEPARATOR ==> joined(base, name) == name,
        name.len() == 0 || name[0] != SEPARATOR ==> {
            &&& joined(base, name).take(base.len() as int) == base
            &&& base.len() == 0 || base.last() == SEPARATOR ==> joined(base, name).skip(
                base.len() as int,
            ) == name
            &&& base.len() > 0 && base.last() != SEPARATOR ==> joined(base, name).skip(
                base.len() as int,
            ) == seq![SEPARATOR] + name
        },
{
    if name.len() == 0 || name[0] != SEPARATOR {
        let n = base.len() as int;
        assert(joined(base, name).take(n) =~= base);
        if n == 0 || base.last() == SEPARATOR {
            assert(joined(base, name).skip(n) =~= name);
        } else {
            assert(joined(base, name).skip(n) =~= seq![SEPARATOR] + name);
        }
    }
}

proof fn lemma_trimmed_is_tight(path: Seq<u8>)
    ensures
        trimmed(path).is_prefix_of(path),
        trimmed(path).len() > 0 ==> components(trimmed(path).drop_last()) != components(
            trimmed(path),
        ),
    decreases path.len(),
{
    if path.len() > 0 && components(path.drop_last()) == components(path) {
        lemma_trimmed_is_tight(path.drop_last());
    } else {
        assert(path.subrange(0, path.len() as int) =~= path);
    }
}

proof fn lemma_beginning_is_tight(path: Seq<u8>, n: nat)
    ensures
        beginning(path, n).is_prefix_of(path),
        beginning(path, n).len() > 0 ==> components(beginning(path, n).drop_last()) != components(
            beginning(path, n),
        ),
    decreases path.len(),
{
    if path.len() == 0 || components(path).len() < n {
        lemma_trimmed_is_tight(path);
    } else {
        lemma_beginning_is_tight(path.drop_last(), n);
    }
}

/// A path is in a directory exactly when it has a component that is not the root directory.
/// That directory is a beginning of the path, it has all components but the last, and nothing
/// stands after its own last component.
pub proof fn law_parent_is_the_beginning(path: Seq<u8>)
    ensures
        parent(path) is Some <==> components(path).len() > 0 && components(path).last()
            != ComponentView::RootDir,
        parent(path) matches Some(directory) ==> {
            &&& directory.is_prefix_of(path)
            &&& components(directory) == components(path).drop_last()
            &&& directory.len() > 0 ==> components(directory.drop_last()) != components(directory)
        },
{
    if parent(path) is Some {
        law_parent_drops_last_component(path);
        lemma_beginning_is_tight(path, components(path).len());
    }
}

/// A path has a file name exactly when its last component is a name, and it is that name.
pub proof fn law_file_name_is_the_last_component(path: Seq<u8>, name: Seq<u8>)
    ensures
        file_name(path) == Some(name) <==> components(path).len() > 0 && components(path).last()
            == ComponentView::Normal(name),
{
}

/// The stem of a name ends before its last dot, where that is not its first byte; a name
/// without such a dot is all stem.
pub proof fn law_stem_ends_before_the_last_dot(name: Seq<u8>)
    requires
        name.len() > 0,
    ensures
        0 < stem_length(name) <= name.len(),
        stem_length(name) < name.len() ==> name[stem_length(name)] == DOT,
        forall|k: int| stem_length(name) < k < name.len() ==> name[k] != DOT,
        stem_length(name) == name.len() ==> forall|k: int| 0 < k < name.len() ==> name[k] != DOT,
{
    lemma_stem_fits(name);
    lemma_last_dot_fits(name);
    assert forall|k: int| 0 < k < name.len() && name[k] == DOT implies k <= stem_length(name)
        && stem_length(name) < name.len() by {
        lemma_last_dot_is_last(name, k);
    }
    if stem_length(name) < name.len() {
        lemma_last_dot_is_dot(name);
    }
}

proof fn lemma_last_dot_is_dot(name: Seq<u8>)
    ensures
        last_dot(name) is Some ==> 0 <= last_dot(name)->0 < name.len() && name[last_dot(name)->0]
            == DOT,
    decreases name.len(),
{
    if name.len() > 0 && name.last() != DOT {
        lemma_last_dot_is_dot(name.drop_last());
    }
}

/// A path without a file name keeps its extension.
pub proof fn law_path_without_name_is_not_extended(path: Seq<u8>, extension: Seq<u8>)
    requires
        file_name(path) is None,
    ensures
        extended(path, extension) == path,
{
}

} // verus!
