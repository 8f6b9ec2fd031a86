//! Unix-style paths held as strings: their components, forced joins and relative forms.
//!
//! A path is split at `/`; empty pieces and `.` pieces are dropped, except that a relative path
//! that begins with a `.` piece keeps it as its first component. A leading `/` is the root.
use crate::text::{chars_of, lemma_split_nonempty, seqs_of, split_chars, split_on, string_of};
use vstd::prelude::*;

verus! {

/// The `.` component.
pub open spec fn cur_dir() -> Seq<char> {
    seq!['.']
}

/// The marker that stands for the root among the components of an absolute path.
pub open spec fn root_part() -> Seq<char> {
    seq!['/']
}

/// A piece of a path that names something: neither empty nor `.`.
pub open spec fn is_named(g: Seq<char>) -> bool {
    g.len() > 0 && g != cur_dir()
}

/// The named pieces of `segs`, in their order.
pub open spec fn named_parts(segs: Seq<Seq<char>>) -> Seq<Seq<char>>
    decreases segs.len(),
{
    if segs.len() == 0 {
        Seq::empty()
    } else {
        let prev = named_parts(segs.drop_last());
        if is_named(segs.last()) {
            prev.push(segs.last())
        } else {
            prev
        }
    }
}

/// The components of `p` other than its root.
pub open spec fn components(p: Seq<char>) -> Seq<Seq<char>> {
    let segs = split_on(p, '/');
    if segs[0] == cur_dir() {
        seq![cur_dir()] + named_parts(segs)
    } else {
        named_parts(segs)
    }
}

/// Whether `p` begins at the root.
pub open spec fn is_rooted(p: Seq<char>) -> bool {
    p.len() > 0 && p[0] == '/'
}

/// All components of `p`, the root marker first when `p` is rooted.
pub open spec fn path_components(p: Seq<char>) -> Seq<Seq<char>> {
    if is_rooted(p) {
        seq![root_part()] + components(p)
    } else {
        components(p)
    }
}

/// `buf` with one more component at its end, a `/` put between them where needed.
pub open spec fn push_part(buf: Seq<char>, part: Seq<char>) -> Seq<char> {
    if buf.len() == 0 {
        part
    } else if buf.last() == '/' {
        buf + part
    } else {
        buf.push('/') + part
    }
}

/// `buf` with each of `parts` pushed in turn.
pub open spec fn push_parts(buf: Seq<char>, parts: Seq<Seq<char>>) -> Seq<char>
    decreases parts.len(),
{
    if parts.len() == 0 {
        buf
    } else {
        push_part(push_parts(buf, parts.drop_last()), parts.last())
    }
}

/// `base` with every non-root component of `p` pushed onto it: the root of `p` never
/// replaces `base`.
pub open spec fn force_joined(base: Seq<char>, p: Seq<char>) -> Seq<char> {
    push_parts(base, components(p))
}

/// Whether `g` is the `.` component.
fn is_cur_dir(g: &Vec<char>) -> (r: bool)
    ensures
        r == (g@ == cur_dir()),
{
    let r = g.len() == 1 && g[0] == '.';
    proof {
        if g@.len() == 1 && g@[0] == '.' {
            assert(g@ =~= cur_dir());
        }
    }
    r
}

/// Whether `g` names something.
fn is_named_piece(g: &Vec<char>) -> (r: bool)
    ensures
        r == is_named(g@),
{
    let c = is_cur_dir(g);
    g.len() > 0 && !c
}

/// A copy of a character vector.
fn copy_chars(v: &Vec<char>) -> (out: Vec<char>)
    ensures
        out@ == v@,
{
    let mut out: Vec<char> = Vec::new();
    let mut i: usize = 0;
    while i < v.len()
        invariant
            i <= v.len(),
            out@ == v@.take(i as int),
        decreases v.len() - i,
    {
        out.push(v[i]);
        i = i + 1;
        assert(out@ =~= v@.take(i as int));
    }
    assert(v@.take(v.len() as int) =~= v@);
    out
}

/// The components of a path, as `components` gives them.
pub fn components_of(p: &Vec<char>) -> (out: Vec<Vec<char>>)
    ensures
        seqs_of(out@) == components(p@),
{
    let segs = split_chars(p, '/');
    proof {
        lemma_split_nonempty(p@, '/');
    }
    let ghost all = seqs_of(segs@);
    assert(all[0] == segs@[0]@);
    let mut out: Vec<Vec<char>> = Vec::new();
    let lead = is_cur_dir(&segs[0]);
    if lead {
        let mut dot: Vec<char> = Vec::new();
        dot.push('.');
        out.push(dot);
    }
    let ghost head: Seq<Seq<char>> = if lead {
        seq![cur_dir()]
    } else {
        Seq::empty()
    };
    assert(seqs_of(out@) =~= head + named_parts(all.take(0)));
    let mut i: usize = 0;
    while i < segs.len()
        invariant
            i <= segs.len(),
            all == seqs_of(segs@),
            seqs_of(out@) == head + named_parts(all.take(i as int)),
        decreases segs.len() - i,
    {
        assert(all.take(i + 1).drop_last() =~= all.take(i as int));
        assert(all.take(i + 1).last() == segs@[i as int]@);
        if is_named_piece(&segs[i]) {
            let piece = copy_chars(&segs[i]);
            let ghost before = seqs_of(out@);
            out.push(piece);
            assert(seqs_of(out@) =~= before.push(piece@));
        }
        i = i + 1;
    }
    assert(all.take(segs.len() as int) =~= all);
    out
}

/// Appends `part` to `buf` with a `/` between them where `buf` needs one.
fn push_part_into(buf: &mut Vec<char>, part: &Vec<char>)
    ensures
        final(buf)@ == push_part(old(buf)@, part@),
{
    let n: usize = buf.len();
    if n > 0 && buf[n - 1] != '/' {
        buf.push('/');
    }
    let ghost start = buf@;
    let mut k: usize = 0;
    while k < part.len()
        invariant
            k <= part.len(),
            buf@ == start + part@.take(k as int),
        decreases part.len() - k,
    {
        buf.push(part[k]);
        k = k + 1;
        assert(buf@ =~= start + part@.take(k as int));
    }
    assert(part@.take(part.len() as int) =~= part@);
    assert(old(buf)@.len() > 0 ==> old(buf)@.last() == old(buf)@[n - 1]);
}

/// Joins `p` onto `base`, pushing every component of `p` except its root, so that an absolute
/// `p` still lands below `base`.
pub fn join_force(base: &str, p: &str) -> (out: String)
    ensures
        out@ == force_joined(base@, p@),
{
    let mut buf = chars_of(base);
    let pc = chars_of(p);
    let comps = components_of(&pc);
    let ghost parts = seqs_of(comps@);
    let mut i: usize = 0;
    assert(parts.take(0) =~= Seq::<Seq<char>>::empty());
    while i < comps.len()
        invariant
            i <= comps.len(),
            parts == seqs_of(comps@),
            buf@ == push_parts(base@, parts.take(i as int)),
        decreases comps.len() - i,
    {
        assert(parts.take(i + 1).drop_last() =~= parts.take(i as int));
        push_part_into(&mut buf, &comps[i]);
        i = i + 1;
    }
    assert(parts.take(comps.len() as int) =~= parts);
    string_of(&buf)
}

/// Pushing components never changes what was already there.
proof fn lemma_push_parts_extends(buf: Seq<char>, parts: Seq<Seq<char>>)
    ensures
        push_parts(buf, parts).len() >= buf.len(),
        push_parts(buf, parts).subrange(0, buf.len() as int) == buf,
    decreases parts.len(),
{
    if parts.len() > 0 {
        lemma_push_parts_extends(buf, parts.drop_last());
        let prev = push_parts(buf, parts.drop_last());
        let next = push_part(prev, parts.last());
        if prev.len() > 0 {
            assert(next.subrange(0, buf.len() as int) =~= prev.subrange(0, buf.len() as int));
        }
    }
}

/// A forced join keeps `base` as the beginning of its result, whatever `p` holds.
pub proof fn join_force_keeps_base(base: Seq<char>, p: Seq<char>)
    ensures
        force_joined(base, p).len() >= base.len(),
        force_joined(base, p).subrange(0, base.len() as int) == base,
{
    lemma_push_parts_extends(base, components(p));
}

/// Splitting a path that begins with `/` gives an empty piece and then the rest's pieces.
proof fn lemma_split_after_root(p: Seq<char>)
    ensures
        split_on(seq!['/'] + p, '/') == seq![Seq::<char>::empty()] + split_on(p, '/'),
    decreases p.len(),
{
    let q = seq!['/'] + p;
    if p.len() == 0 {
        assert(q.drop_last() =~= Seq::<char>::empty());
        assert(q.last() == '/');
        assert(split_on(q.drop_last(), '/') == seq![Seq::<char>::empty()]);
        assert(split_on(p, '/') == seq![Seq::<char>::empty()]);
        assert(split_on(q, '/') =~= seq![Seq::<char>::empty()] + split_on(p, '/'));
    } else {
        lemma_split_after_root(p.drop_last());
        assert(q.drop_last() =~= seq!['/'] + p.drop_last());
        assert(q.last() == p.last());
        lemma_split_nonempty(p.drop_last(), '/');
        let prev = split_on(p.drop_last(), '/');
        let e = seq![Seq::<char>::empty()];
        if p.last() == '/' {
            assert((e + prev).push(Seq::<char>::empty()) =~= e + prev.push(Seq::<char>::empty()));
        } else {
            assert((e + prev).update((e + prev).len() - 1, (e + prev).last().push(p.last())) =~= e
                + prev.update(prev.len() - 1, prev.last().push(p.last())));
        }
        assert(split_on(q, '/') =~= seq![Seq::<char>::empty()] + split_on(p, '/'));
    }
}

/// A piece in front that names nothing changes nothing among the named pieces.
proof fn lemma_named_parts_skip(g: Seq<char>, segs: Seq<Seq<char>>)
    requires
        !is_named(g),
    ensures
        named_parts(seq![g] + segs) == named_parts(segs),
    decreases segs.len(),
{
    let all = seq![g] + segs;
    if segs.len() == 0 {
        assert(all.drop_last() =~= Seq::<Seq<char>>::empty());
        assert(all.last() == g);
        assert(named_parts(all.drop_last()) == Seq::<Seq<char>>::empty());
        assert(named_parts(all) == named_parts(all.drop_last()));
    } else {
        lemma_named_parts_skip(g, segs.drop_last());
        assert(all.drop_last() =~= seq![g] + segs.drop_last());
        assert(all.last() == segs.last());
        assert(named_parts(all.drop_last()) == named_parts(segs.drop_last()));
    }
}

/// A forced join ignores the root of `p`: prefixing `p` with `/` changes nothing, unless `p`
/// begins with a `.` component (which only a relative path keeps).
pub proof fn join_force_ignores_root(base: Seq<char>, p: Seq<char>)
    requires
        split_on(p, '/')[0] != cur_dir(),
    ensures
        force_joined(base, seq!['/'] + p) == force_joined(base, p),
{
    lemma_split_after_root(p);
    lemma_named_parts_skip(Seq::<char>::empty(), split_on(p, '/'));
    assert(components(seq!['/'] + p) == components(p));
}


/// Whether `a` is an initial run of `b`.
pub open spec fn is_prefix_of(a: Seq<Seq<char>>, b: Seq<Seq<char>>) -> bool {
    a.len() <= b.len() && b.take(a.len() as int) == a
}

/// The text of a run of components: joined with `/`, and led by `/` when it starts at the root.
pub open spec fn rendered(parts: Seq<Seq<char>>) -> Seq<char> {
    if parts.len() > 0 && parts[0] == root_part() {
        push_parts(seq!['/'], parts.drop_first())
    } else {
        push_parts(Seq::empty(), parts)
    }
}

/// `abs` seen from `base`: when the components of `base` begin those of `abs`, the rest of
/// `abs` below `/`; otherwise `abs` unchanged.
pub open spec fn relative_to(base: Seq<char>, abs: Seq<char>) -> Seq<char> {
    let bc = path_components(base);
    let ac = path_components(abs);
    if is_prefix_of(bc, ac) {
        let rel = rendered(ac.skip(bc.len() as int));
        if rel.len() == 0 {
            seq!['/']
        } else if rel[0] == '/' {
            rel
        } else {
            seq!['/'] + rel
        }
    } else {
        abs
    }
}

/// All components of a path, the root marker first when it is rooted.
pub fn path_components_of(p: &Vec<char>) -> (out: Vec<Vec<char>>)
    ensures
        seqs_of(out@) == path_components(p@),
{
    let comps = components_of(p);
    if p.len() > 0 && p[0] == '/' {
        let mut root: Vec<char> = Vec::new();
        root.push('/');
        let mut out: Vec<Vec<char>> = Vec::new();
        out.push(root);
        let ghost head = seqs_of(out@);
        assert(head =~= seq![root_part()]);
        let mut i: usize = 0;
        while i < comps.len()
            invariant
                i <= comps.len(),
                head == seq![root_part()],
                seqs_of(out@) == head + seqs_of(comps@).take(i as int),
            decreases comps.len() - i,
        {
            let piece = copy_chars(&comps[i]);
            let ghost before = seqs_of(out@);
            out.push(piece);
            assert(seqs_of(out@) =~= before.push(piece@));
            i = i + 1;
            assert(seqs_of(out@) =~= head + seqs_of(comps@).take(i as int));
        }
        assert(seqs_of(comps@).take(comps.len() as int) =~= seqs_of(comps@));
        out
    } else {
        comps
    }
}

/// Whether two character vectors hold the same characters.
pub fn same_chars(a: &Vec<char>, b: &Vec<char>) -> (r: bool)
    ensures
        r == (a@ == b@),
{
    if a.len() != b.len() {
        return false;
    }
    let mut i: usize = 0;
    while i < a.len()
        invariant
            i <= a.len(),
            a.len() == b.len(),
            forall|j: int| 0 <= j < i ==> a@[j] == b@[j],
        decreases a.len() - i,
    {
        if a[i] != b[i] {
            return false;
        }
        i = i + 1;
    }
    assert(a@ =~= b@);
    true
}

/// Whether the components in `a` begin those in `b`.
pub fn starts_with_parts(a: &Vec<Vec<char>>, b: &Vec<Vec<char>>) -> (r: bool)
    ensures
        r == is_prefix_of(seqs_of(a@), seqs_of(b@)),
{
    if a.len() > b.len() {
        return false;
    }
    let mut i: usize = 0;
    while i < a.len()
        invariant
            i <= a.len() <= b.len(),
            forall|j: int| 0 <= j < i ==> seqs_of(a@)[j] == seqs_of(b@)[j],
        decreases a.len() - i,
    {
        if !same_chars(&a[i], &b[i]) {
            assert(seqs_of(b@).take(a.len() as int)[i as int] != seqs_of(a@)[i as int]);
            return false;
        }
        i = i + 1;
    }
    assert(seqs_of(b@).take(a.len() as int) =~= seqs_of(a@));
    true
}

/// The text of the components of `parts` from index `k` on, as `rendered` gives it.
fn render_from(parts: &Vec<Vec<char>>, k: usize) -> (out: Vec<char>)
    requires
        k <= parts.len(),
    ensures
        out@ == rendered(seqs_of(parts@).skip(k as int)),
{
    let ghost all = seqs_of(parts@);
    let ghost rest = all.skip(k as int);
    let mut out: Vec<char> = Vec::new();
    let mut i: usize = k;
    if k < parts.len() {
        let r = parts[k].len() == 1 && parts[k][0] == '/';
        if r {
            assert(parts@[k as int]@ =~= root_part());
            out.push('/');
            i = k + 1;
        } else {
            assert(parts@[k as int]@ != root_part());
        }
    }
    let ghost init = out@;
    assert(rendered(rest) == push_parts(init, all.subrange(i as int, parts.len() as int))) by {
        if i > k {
            assert(rest.drop_first() =~= all.subrange(i as int, parts.len() as int));
            assert(init =~= seq!['/']);
        } else {
            assert(rest =~= all.subrange(i as int, parts.len() as int));
        }
    }
    let start: usize = i;
    assert(all.subrange(start as int, start as int) =~= Seq::<Seq<char>>::empty());
    while i < parts.len()
        invariant
            start <= i <= parts.len(),
            all == seqs_of(parts@),
            out@ == push_parts(init, all.subrange(start as int, i as int)),
        decreases parts.len() - i,
    {
        assert(all.subrange(start as int, i + 1).drop_last() =~= all.subrange(
            start as int,
            i as int,
        ));
        push_part_into(&mut out, &parts[i]);
        i = i + 1;
    }
    out
}

/// `abs` seen from `base`, as `relative_to` gives it.
pub fn relative_path(base: &str, abs: &str) -> (out: String)
    ensures
        out@ == relative_to(base@, abs@),
{
    let bc = path_components_of(&chars_of(base));
    let ac = path_components_of(&chars_of(abs));
    if !starts_with_parts(&bc, &ac) {
        return string_of(&chars_of(abs));
    }
    let rel = render_from(&ac, bc.len());
    if rel.len() == 0 {
        let mut out: Vec<char> = Vec::new();
        out.push('/');
        assert(out@ =~= seq!['/']);
        string_of(&out)
    } else if rel[0] == '/' {
        string_of(&rel)
    } else {
        let mut out: Vec<char> = Vec::new();
        out.push('/');
        let mut k: usize = 0;
        while k < rel.len()
            invariant
                k <= rel.len(),
                out@ == seq!['/'] + rel@.take(k as int),
            decreases rel.len() - k,
        {
            out.push(rel[k]);
            k = k + 1;
            assert(out@ =~= seq!['/'] + rel@.take(k as int));
        }
        assert(rel@.take(rel.len() as int) =~= rel@);
        string_of(&out)
    }
}


/// Whether no character of `g` is `c`.
pub open spec fn lacks(g: Seq<char>, c: char) -> bool {
    forall|j: int| 0 <= j < g.len() ==> g[j] != c
}

/// The named pieces of a split that ends in an empty piece are those without it.
proof fn lemma_named_parts_push(segs: Seq<Seq<char>>, g: Seq<char>)
    ensures
        named_parts(segs.push(g)) == (if is_named(g) {
            named_parts(segs).push(g)
        } else {
            named_parts(segs)
        }),
{
    assert(segs.push(g).drop_last() =~= segs);
}

/// Pushing a named component adds exactly that component.
proof fn lemma_push_part_components(buf: Seq<char>, g: Seq<char>)
    requires
        is_named(g),
        lacks(g, '/'),
    ensures
        path_components(push_part(buf, g)) == path_components(buf).push(g),
{
    let e = Seq::<char>::empty();
    lemma_split_nonempty(buf, '/');
    if buf.len() == 0 {
        assert(push_part(buf, g) == g);
        assert(e + g =~= g);
        crate::text::lemma_split_extend_last(e, g, '/');
        assert(split_on(e, '/') == seq![e]);
        assert(split_on(g, '/') =~= seq![g]);
        lemma_named_parts_push(Seq::<Seq<char>>::empty(), g);
        assert(seq![g] =~= Seq::<Seq<char>>::empty().push(g));
        assert(named_parts(seq![e]) == named_parts(Seq::<Seq<char>>::empty().push(e)));
        lemma_named_parts_push(Seq::<Seq<char>>::empty(), e);
        assert(path_components(buf) =~= Seq::<Seq<char>>::empty());
        assert(path_components(g) =~= seq![g]);
    } else if buf.last() == '/' {
        let segs = split_on(buf, '/');
        assert(buf.drop_last().push('/') =~= buf);
        lemma_split_nonempty(buf.drop_last(), '/');
        assert(segs == split_on(buf.drop_last(), '/').push(e));
        crate::text::lemma_split_extend_last(buf, g, '/');
        let new_segs = split_on(buf + g, '/');
        assert(new_segs =~= segs.drop_last().push(g));
        assert(segs =~= segs.drop_last().push(e));
        lemma_named_parts_push(segs.drop_last(), g);
        lemma_named_parts_push(segs.drop_last(), e);
        assert(new_segs[0] == segs[0]);
        assert(is_rooted(buf + g) == is_rooted(buf));
        assert(push_part(buf, g) == buf + g);
        if is_rooted(buf) {
            assert(path_components(buf + g) =~= path_components(buf).push(g));
        } else {
            assert(path_components(buf + g) =~= path_components(buf).push(g));
        }
    } else {
        let segs = split_on(buf, '/');
        let mid = buf.push('/');
        assert(mid.drop_last() =~= buf);
        assert(split_on(mid, '/') == segs.push(e));
        crate::text::lemma_split_extend_last(mid, g, '/');
        let new_segs = split_on(mid + g, '/');
        assert(new_segs =~= segs.push(g));
        lemma_named_parts_push(segs, g);
        assert(new_segs[0] == segs[0]);
        assert(is_rooted(mid + g) == is_rooted(buf));
        if is_rooted(buf) {
            assert(path_components(mid + g) =~= path_components(buf).push(g));
        } else {
            assert(path_components(mid + g) =~= path_components(buf).push(g));
        }
    }
}

/// Whether every part is a named component without a `/`.
pub open spec fn all_named(parts: Seq<Seq<char>>) -> bool {
    forall|i: int| 0 <= i < parts.len() ==> is_named(#[trigger] parts[i]) && lacks(parts[i], '/')
}

/// Pushing named components adds exactly those components.
pub(crate) proof fn lemma_push_parts_components(buf: Seq<char>, parts: Seq<Seq<char>>)
    requires
        all_named(parts),
    ensures
        path_components(push_parts(buf, parts)) == path_components(buf) + parts,
    decreases parts.len(),
{
    if parts.len() == 0 {
        assert(path_components(buf) + parts =~= path_components(buf));
    } else {
        let prev = parts.drop_last();
        assert(all_named(prev)) by {
            assert forall|i: int| 0 <= i < prev.len() implies is_named(#[trigger] prev[i])
                && lacks(prev[i], '/') by {
                assert(prev[i] == parts[i]);
            }
        }
        lemma_push_parts_components(buf, prev);
        assert(is_named(parts[parts.len() - 1]));
        lemma_push_part_components(push_parts(buf, prev), parts.last());
        assert(path_components(buf) + parts =~= (path_components(buf) + prev).push(parts.last()));
    }
}

/// The named pieces of a split are named and hold no separator.
proof fn lemma_named_parts_all_named(segs: Seq<Seq<char>>)
    requires
        forall|i: int| 0 <= i < segs.len() ==> lacks(#[trigger] segs[i], '/'),
    ensures
        all_named(named_parts(segs)),
    decreases segs.len(),
{
    if segs.len() > 0 {
        let prev = segs.drop_last();
        assert forall|i: int| 0 <= i < prev.len() implies lacks(#[trigger] prev[i], '/') by {
            assert(prev[i] == segs[i]);
        }
        lemma_named_parts_all_named(prev);
        assert(lacks(segs[segs.len() - 1], '/'));
    }
}

/// A path that does not begin with a `.` component has only named components.
proof fn lemma_components_all_named(p: Seq<char>)
    requires
        split_on(p, '/')[0] != cur_dir(),
    ensures
        all_named(components(p)),
{
    crate::text::lemma_split_parts_lack_sep(p, '/');
    let segs = split_on(p, '/');
    assert forall|i: int| 0 <= i < segs.len() implies lacks(#[trigger] segs[i], '/') by {
        assert forall|j: int| 0 <= j < segs[i].len() implies segs[i][j] != '/' by {
            assert(split_on(p, '/')[i][j] != '/');
        }
    }
    lemma_named_parts_all_named(segs);
}

/// Joining named components from nothing starts with the first one.
proof fn lemma_push_parts_first(parts: Seq<Seq<char>>)
    requires
        parts.len() > 0,
        all_named(parts),
    ensures
        push_parts(Seq::empty(), parts).len() > 0,
        push_parts(Seq::empty(), parts)[0] == parts[0][0],
    decreases parts.len(),
{
    assert(is_named(parts[0]));
    if parts.len() == 1 {
        assert(parts.drop_last() =~= Seq::<Seq<char>>::empty());
        assert(push_parts(Seq::<char>::empty(), parts.drop_last()) == Seq::<char>::empty());
        assert(parts.last() == parts[0]);
    } else {
        let prev = parts.drop_last();
        assert(all_named(prev)) by {
            assert forall|i: int| 0 <= i < prev.len() implies is_named(#[trigger] prev[i])
                && lacks(prev[i], '/') by {
                assert(prev[i] == parts[i]);
            }
        }
        lemma_push_parts_first(prev);
        lemma_push_parts_extends(push_parts(Seq::empty(), prev), seq![parts.last()]);
        let pp = push_parts(Seq::empty(), prev);
        let next = push_part(pp, parts.last());
        assert(next.subrange(0, pp.len() as int) == pp) by {
            if pp.last() == '/' {
                assert(next.subrange(0, pp.len() as int) =~= pp);
            } else {
                assert(next.subrange(0, pp.len() as int) =~= pp);
            }
        }
        assert(next[0] == next.subrange(0, pp.len() as int)[0]);
        assert(prev[0] == parts[0]);
    }
}

/// Seen from `base`, the forced join of `p` onto `base` is `p`'s own components below `/`:
/// the path that `join_force` builds reads back as the path that was asked for. This holds
/// unless `p` begins with a `.` component.
pub proof fn relative_of_join_force(base: Seq<char>, p: Seq<char>)
    requires
        split_on(p, '/')[0] != cur_dir(),
    ensures
        relative_to(base, force_joined(base, p)) == (if components(p).len() == 0 {
            seq!['/']
        } else {
            seq!['/'] + push_parts(Seq::empty(), components(p))
        }),
{
    let comps = components(p);
    lemma_components_all_named(p);
    lemma_push_parts_components(base, comps);
    let bc = path_components(base);
    let ac = path_components(force_joined(base, p));
    assert(ac == bc + comps);
    assert(ac.take(bc.len() as int) =~= bc);
    assert(ac.skip(bc.len() as int) =~= comps);
    if comps.len() > 0 {
        assert(is_named(comps[0]) && lacks(comps[0], '/'));
        assert(comps[0] != root_part()) by {
            if comps[0] == root_part() {
                assert(comps[0][0] == '/');
            }
        }
        lemma_push_parts_first(comps);
    } else {
        assert(push_parts(Seq::<char>::empty(), comps) == Seq::<char>::empty());
    }
}


/// The `..` component.
pub open spec fn parent_dir() -> Seq<char> {
    seq!['.', '.']
}

/// A component that names an entry itself: not the root, `.` or `..`.
pub open spec fn is_entry_name(g: Seq<char>) -> bool {
    is_named(g) && g != parent_dir() && g != root_part()
}

/// The final component of `p` when it names an entry, and nothing otherwise (as
/// `Path::file_name`, with an empty name for "nothing").
pub open spec fn file_name(p: Seq<char>) -> Seq<char> {
    let pc = path_components(p);
    if pc.len() > 0 && is_entry_name(pc.last()) {
        pc.last()
    } else {
        Seq::empty()
    }
}

/// `p` without its final component, or `None` when `p` has no components or ends at the root
/// (as `Path::parent`).
pub open spec fn parent_of(p: Seq<char>) -> Option<Seq<char>> {
    let pc = path_components(p);
    if pc.len() == 0 || pc.last() == root_part() {
        None
    } else {
        Some(rendered(pc.drop_last()))
    }
}

/// The name of the entry at `p`, empty when its last component names none.
pub fn file_name_of(p: &str) -> (out: String)
    ensures
        out@ == file_name(p@),
{
    let pc = path_components_of(&chars_of(p));
    let n: usize = pc.len();
    if n == 0 {
        return String::new();
    }
    let last = &pc[n - 1];
    assert(seqs_of(pc@).last() == last@);
    let dot = is_cur_dir(last);
    let dotdot = last.len() == 2 && last[0] == '.' && last[1] == '.';
    let root = last.len() == 1 && last[0] == '/';
    proof {
        if last@.len() == 2 && last@[0] == '.' && last@[1] == '.' {
            assert(last@ =~= parent_dir());
        }
        if last@.len() == 1 && last@[0] == '/' {
            assert(last@ =~= root_part());
        }
    }
    if last.len() > 0 && !dot && !dotdot && !root {
        string_of(last)
    } else {
        String::new()
    }
}

/// The path above `p`, as `parent_of` gives it.
pub fn parent_path(p: &str) -> (out: Option<String>)
    ensures
        out matches Some(s) ==> parent_of(p@) == Some(s@),
        out is None ==> parent_of(p@) is None,
{
    let pc = path_components_of(&chars_of(p));
    let n: usize = pc.len();
    if n == 0 {
        return None;
    }
    let last = &pc[n - 1];
    assert(seqs_of(pc@).last() == last@);
    let root = last.len() == 1 && last[0] == '/';
    proof {
        if last@.len() == 1 && last@[0] == '/' {
            assert(last@ =~= root_part());
        }
    }
    if root {
        return None;
    }
    let mut front: Vec<Vec<char>> = Vec::new();
    let mut i: usize = 0;
    while i < n - 1
        invariant
            i <= n - 1,
            n == pc.len(),
            seqs_of(front@) == seqs_of(pc@).take(i as int),
        decreases n - 1 - i,
    {
        let piece = copy_chars(&pc[i]);
        let ghost before = seqs_of(front@);
        front.push(piece);
        assert(seqs_of(front@) =~= before.push(piece@));
        i = i + 1;
        assert(seqs_of(front@) =~= seqs_of(pc@).take(i as int));
    }
    assert(seqs_of(pc@).take((n - 1) as int) =~= seqs_of(pc@).drop_last());
    let text = render_from(&front, 0);
    assert(seqs_of(front@).skip(0) =~= seqs_of(front@));
    Some(string_of(&text))
}

/// Pushing `.` onto a non-empty path changes none of its components.
proof fn lemma_push_cur_dir_components(buf: Seq<char>)
    requires
        buf.len() > 0,
    ensures
        path_components(push_part(buf, cur_dir())) == path_components(buf),
{
    let e = Seq::<char>::empty();
    let g = cur_dir();
    assert(lacks(g, '/'));
    lemma_split_nonempty(buf, '/');
    if buf.last() == '/' {
        let segs = split_on(buf, '/');
        assert(buf.drop_last().push('/') =~= buf);
        lemma_split_nonempty(buf.drop_last(), '/');
        assert(segs == split_on(buf.drop_last(), '/').push(e));
        crate::text::lemma_split_extend_last(buf, g, '/');
        let new_segs = split_on(buf + g, '/');
        assert(new_segs =~= segs.drop_last().push(g));
        assert(segs =~= segs.drop_last().push(e));
        lemma_named_parts_push(segs.drop_last(), g);
        lemma_named_parts_push(segs.drop_last(), e);
        assert(new_segs[0] == segs[0]);
        assert(is_rooted(buf + g) == is_rooted(buf));
        assert(push_part(buf, g) == buf + g);
    } else {
        let segs = split_on(buf, '/');
        let mid = buf.push('/');
        assert(mid.drop_last() =~= buf);
        assert(split_on(mid, '/') == segs.push(e));
        crate::text::lemma_split_extend_last(mid, g, '/');
        let new_segs = split_on(mid + g, '/');
        assert(new_segs =~= segs.push(g));
        lemma_named_parts_push(segs, g);
        assert(new_segs[0] == segs[0]);
        assert(is_rooted(mid + g) == is_rooted(buf));
    }
}

/// Whether every part is a named component or `.`, without a `/`.
pub open spec fn all_pushable(parts: Seq<Seq<char>>) -> bool {
    forall|i: int|
        0 <= i < parts.len() ==> (is_named(#[trigger] parts[i]) || parts[i] == cur_dir()) && lacks(
            parts[i],
            '/',
        )
}

/// Pushing components never takes away the components already there.
proof fn lemma_push_parts_keeps_prefix(buf: Seq<char>, parts: Seq<Seq<char>>)
    requires
        all_pushable(parts),
    ensures
        is_prefix_of(path_components(buf), path_components(push_parts(buf, parts))),
    decreases parts.len(),
{
    let pc = path_components(buf);
    if parts.len() == 0 {
        assert(pc.take(pc.len() as int) =~= pc);
    } else {
        let prev = parts.drop_last();
        assert(all_pushable(prev)) by {
            assert forall|i: int| 0 <= i < prev.len() implies (is_named(#[trigger] prev[i])
                || prev[i] == cur_dir()) && lacks(prev[i], '/') by {
                assert(prev[i] == parts[i]);
            }
        }
        lemma_push_parts_keeps_prefix(buf, prev);
        let mid = push_parts(buf, prev);
        let g = parts.last();
        assert((is_named(parts[parts.len() - 1]) || parts[parts.len() - 1] == cur_dir()) && lacks(
            parts[parts.len() - 1],
            '/',
        ));
        let mc = path_components(mid);
        if is_named(g) {
            lemma_push_part_components(mid, g);
            assert(mc.push(g).take(pc.len() as int) =~= mc.take(pc.len() as int));
        } else if mid.len() > 0 {
            lemma_push_cur_dir_components(mid);
        } else {
            assert(push_part(mid, g) == g);
            lemma_split_nonempty(mid, '/');
            assert(split_on(mid, '/') == seq![Seq::<char>::empty()]);
            assert(named_parts(split_on(mid, '/')) == named_parts(
                Seq::<Seq<char>>::empty().push(Seq::<char>::empty()),
            )) by {
                assert(split_on(mid, '/') =~= Seq::<Seq<char>>::empty().push(Seq::<char>::empty()));
            }
            lemma_named_parts_push(Seq::<Seq<char>>::empty(), Seq::<char>::empty());
            assert(mc =~= Seq::<Seq<char>>::empty());
            assert(pc.len() == 0);
            let nc = path_components(push_part(mid, g));
            assert(nc.take(0) =~= pc);
        }
    }
}

/// The components of a path are named components or a leading `.`, none with a `/`.
proof fn lemma_components_pushable(p: Seq<char>)
    ensures
        all_pushable(components(p)),
{
    crate::text::lemma_split_parts_lack_sep(p, '/');
    let segs = split_on(p, '/');
    lemma_split_nonempty(p, '/');
    assert forall|i: int| 0 <= i < segs.len() implies lacks(#[trigger] segs[i], '/') by {
        assert forall|j: int| 0 <= j < segs[i].len() implies segs[i][j] != '/' by {
            assert(split_on(p, '/')[i][j] != '/');
        }
    }
    lemma_named_parts_all_named(segs);
    let named = named_parts(segs);
    if segs[0] == cur_dir() {
        let all = seq![cur_dir()] + named;
        assert forall|i: int| 0 <= i < all.len() implies (is_named(#[trigger] all[i]) || all[i]
            == cur_dir()) && lacks(all[i], '/') by {
            if i > 0 {
                assert(all[i] == named[i - 1]);
            } else {
                assert(lacks(cur_dir(), '/'));
            }
        }
    }
}

/// A forced join always lies below `base`, component by component: whatever `p` holds, the
/// components of `base` begin those of the result.
pub proof fn join_force_stays_below_base(base: Seq<char>, p: Seq<char>)
    ensures
        is_prefix_of(path_components(base), path_components(force_joined(base, p))),
{
    lemma_components_pushable(p);
    lemma_push_parts_keeps_prefix(base, components(p));
}


/// Named components are kept as they are by `named_parts`.
proof fn lemma_named_parts_of_named(parts: Seq<Seq<char>>)
    requires
        all_named(parts),
    ensures
        named_parts(parts) == parts,
    decreases parts.len(),
{
    if parts.len() == 0 {
        assert(named_parts(parts) =~= parts);
    } else {
        let prev = parts.drop_last();
        assert(all_named(prev)) by {
            assert forall|i: int| 0 <= i < prev.len() implies is_named(#[trigger] prev[i])
                && lacks(prev[i], '/') by {
                assert(prev[i] == parts[i]);
            }
        }
        lemma_named_parts_of_named(prev);
        assert(is_named(parts[parts.len() - 1]));
        assert(prev.push(parts.last()) =~= parts);
    }
}

/// Pushing named components and `.` onto a non-empty path adds exactly the named ones.
proof fn lemma_push_parts_pushable(buf: Seq<char>, parts: Seq<Seq<char>>)
    requires
        buf.len() > 0,
        all_pushable(parts),
    ensures
        path_components(push_parts(buf, parts)) == path_components(buf) + named_parts(parts),
    decreases parts.len(),
{
    if parts.len() == 0 {
        assert(path_components(buf) + named_parts(parts) =~= path_components(buf));
    } else {
        let prev = parts.drop_last();
        assert(all_pushable(prev)) by {
            assert forall|i: int| 0 <= i < prev.len() implies (is_named(#[trigger] prev[i])
                || prev[i] == cur_dir()) && lacks(prev[i], '/') by {
                assert(prev[i] == parts[i]);
            }
        }
        lemma_push_parts_pushable(buf, prev);
        lemma_push_parts_extends(buf, prev);
        let mid = push_parts(buf, prev);
        let g = parts.last();
        assert((is_named(parts[parts.len() - 1]) || parts[parts.len() - 1] == cur_dir()) && lacks(
            parts[parts.len() - 1],
            '/',
        ));
        lemma_named_parts_push(prev, g);
        assert(prev.push(g) =~= parts);
        if is_named(g) {
            lemma_push_part_components(mid, g);
            assert(path_components(buf) + named_parts(parts) =~= (path_components(buf)
                + named_parts(prev)).push(g));
        } else {
            lemma_push_cur_dir_components(mid);
        }
    }
}

/// The named pieces of a split of a path without `..` all name entries.
proof fn lemma_named_parts_entries(segs: Seq<Seq<char>>)
    requires
        forall|i: int|
            0 <= i < segs.len() ==> lacks(#[trigger] segs[i], '/') && segs[i] != parent_dir(),
    ensures
        forall|i: int|
            0 <= i < named_parts(segs).len() ==> is_entry_name(#[trigger] named_parts(segs)[i]),
    decreases segs.len(),
{
    if segs.len() > 0 {
        let prev = segs.drop_last();
        assert forall|i: int| 0 <= i < prev.len() implies lacks(#[trigger] prev[i], '/')
            && prev[i] != parent_dir() by {
            assert(prev[i] == segs[i]);
        }
        lemma_named_parts_entries(prev);
        let g = segs[segs.len() - 1];
        assert(lacks(g, '/') && g != parent_dir());
        assert(g != root_part()) by {
            if g == root_part() {
                assert(g[0] == '/');
            }
        }
        assert(segs.last() == g);
        lemma_named_parts_push(prev, g);
        assert(prev.push(g) =~= segs);
        let np = named_parts(prev);
        assert forall|i: int| 0 <= i < named_parts(segs).len() implies is_entry_name(
            #[trigger] named_parts(segs)[i],
        ) by {
            if i < np.len() {
                assert(named_parts(segs)[i] == np[i]);
            }
        }
    }
}

/// What a forced join holds, component by component: the components of `base`, then the
/// named pieces of `p` in their order (its root, empty pieces and `.` pieces are dropped).
/// Every component after `base`'s is a named one, and when no piece of `p` is `..`, each of
/// them names an entry, so the result lies at `base` or strictly inside it. This holds unless
/// `base` is empty and `p` begins with a `.` piece.
pub proof fn join_force_components(base: Seq<char>, p: Seq<char>)
    requires
        base.len() > 0 || split_on(p, '/')[0] != cur_dir(),
    ensures
        path_components(force_joined(base, p)) == path_components(base) + named_parts(
            split_on(p, '/'),
        ),
        all_named(named_parts(split_on(p, '/'))),
        (forall|i: int|
            0 <= i < split_on(p, '/').len() ==> #[trigger] split_on(p, '/')[i] != parent_dir())
            ==> (forall|i: int|
            path_components(base).len() <= i < path_components(force_joined(base, p)).len()
                ==> is_entry_name(#[trigger] path_components(force_joined(base, p))[i])),
{
    let segs = split_on(p, '/');
    crate::text::lemma_split_parts_lack_sep(p, '/');
    lemma_split_nonempty(p, '/');
    assert forall|i: int| 0 <= i < segs.len() implies lacks(#[trigger] segs[i], '/') by {
        assert forall|j: int| 0 <= j < segs[i].len() implies segs[i][j] != '/' by {
            assert(split_on(p, '/')[i][j] != '/');
        }
    }
    lemma_named_parts_all_named(segs);
    let named = named_parts(segs);
    lemma_named_parts_of_named(named);
    if base.len() > 0 {
        lemma_components_pushable(p);
        lemma_push_parts_pushable(base, components(p));
        if segs[0] == cur_dir() {
            lemma_named_parts_skip(cur_dir(), named);
        }
        assert(named_parts(components(p)) == named);
    } else {
        lemma_components_all_named(p);
        lemma_push_parts_components(base, components(p));
    }
    let bc = path_components(base);
    let rc = path_components(force_joined(base, p));
    assert(rc == bc + named);
    if forall|i: int| 0 <= i < segs.len() ==> #[trigger] segs[i] != parent_dir() {
        lemma_named_parts_entries(segs);
        assert forall|i: int| bc.len() <= i < rc.len() implies is_entry_name(#[trigger] rc[i]) by {
            assert(rc[i] == named[i - bc.len()]);
        }
    }
}

/// The path `/` has the root as its only component.
proof fn lemma_root_components()
    ensures
        path_components(seq!['/']) == seq![root_part()],
{
    let r = seq!['/'];
    let e = Seq::<char>::empty();
    assert(r.drop_last() =~= e);
    assert(r.last() == '/');
    assert(split_on(e, '/') == seq![e]);
    assert(split_on(r, '/') == seq![e].push(e));
    lemma_named_parts_push(seq![e], e);
    lemma_named_parts_push(Seq::<Seq<char>>::empty(), e);
    assert(seq![e] =~= Seq::<Seq<char>>::empty().push(e));
    assert(named_parts(Seq::<Seq<char>>::empty()) == Seq::<Seq<char>>::empty());
    assert(components(r) =~= Seq::<Seq<char>>::empty());
    assert(path_components(r) =~= seq![root_part()]);
}

/// A path seen from itself is the root `/`.
pub proof fn relative_to_self(base: Seq<char>)
    ensures
        relative_to(base, base) == seq!['/'],
{
    let bc = path_components(base);
    assert(bc.take(bc.len() as int) =~= bc);
    assert(bc.skip(bc.len() as int) =~= Seq::<Seq<char>>::empty());
    assert(push_parts(Seq::<char>::empty(), Seq::<Seq<char>>::empty()) == Seq::<char>::empty());
}

/// Joining named components under `/` puts the `/` in front of their plain join.
proof fn lemma_push_parts_under_root(parts: Seq<Seq<char>>)
    requires
        parts.len() > 0,
        all_named(parts),
    ensures
        push_parts(seq!['/'], parts) == seq!['/'] + push_parts(Seq::empty(), parts),
    decreases parts.len(),
{
    let r = seq!['/'];
    let e = Seq::<char>::empty();
    let prev = parts.drop_last();
    let g = parts.last();
    if parts.len() == 1 {
        assert(prev =~= Seq::<Seq<char>>::empty());
        assert(push_parts(r, prev) == r);
        assert(push_parts(e, prev) == e);
        assert(push_part(r, g) =~= r + push_part(e, g));
    } else {
        assert(all_named(prev)) by {
            assert forall|i: int| 0 <= i < prev.len() implies is_named(#[trigger] prev[i])
                && lacks(prev[i], '/') by {
                assert(prev[i] == parts[i]);
            }
        }
        lemma_push_parts_under_root(prev);
        lemma_push_parts_first(prev);
        let x = push_parts(e, prev);
        assert((r + x).last() == x.last());
        if x.last() == '/' {
            assert(push_part(r + x, g) =~= r + push_part(x, g));
        } else {
            assert(push_part(r + x, g) =~= r + push_part(x, g));
        }
    }
}

/// A path of named components under `/`, forced onto `base`, reads back from `base` as
/// itself: what `get_relative` gives of `realpath(item)` is `item`.
pub proof fn relative_of_join_force_canonical(base: Seq<char>, parts: Seq<Seq<char>>)
    requires
        all_named(parts),
    ensures
        relative_to(base, force_joined(base, push_parts(seq!['/'], parts))) == push_parts(
            seq!['/'],
            parts,
        ),
{
    let r = seq!['/'];
    let item = push_parts(r, parts);
    lemma_push_parts_components(r, parts);
    lemma_root_components();
    lemma_push_parts_extends(r, parts);
    assert(item[0] == '/') by {
        assert(item.subrange(0, 1) == r);
        assert(item[0] == item.subrange(0, 1)[0]);
    }
    assert(is_rooted(item));
    assert(path_components(item) == seq![root_part()] + parts);
    assert(components(item) =~= parts) by {
        assert(path_components(item) == seq![root_part()] + components(item));
        assert(components(item) =~= (seq![root_part()] + components(item)).skip(1));
        assert(parts =~= (seq![root_part()] + parts).skip(1));
    }
    let segs = split_on(item, '/');
    lemma_split_nonempty(item, '/');
    assert(segs[0] != cur_dir()) by {
        assert(item =~= seq!['/'] + item.skip(1));
        lemma_split_after_root(item.skip(1));
        assert(segs[0] == Seq::<char>::empty());
    }
    relative_of_join_force(base, item);
    if parts.len() == 0 {
        assert(item == r);
    } else {
        lemma_push_parts_under_root(parts);
    }
}

/// Component by component, a rooted path forced onto `base` reads back from `base` as
/// itself.
pub proof fn relative_of_join_force_components(base: Seq<char>, rel: Seq<char>)
    requires
        is_rooted(rel),
    ensures
        path_components(relative_to(base, force_joined(base, rel))) == path_components(rel),
{
    assert(rel =~= seq!['/'] + rel.skip(1));
    lemma_split_after_root(rel.skip(1));
    lemma_split_nonempty(rel.skip(1), '/');
    let segs = split_on(rel, '/');
    assert(segs[0] == Seq::<char>::empty());
    let comps = components(rel);
    lemma_components_all_named(rel);
    relative_of_join_force(base, rel);
    let r = seq!['/'];
    lemma_root_components();
    if comps.len() > 0 {
        lemma_push_parts_under_root(comps);
        lemma_push_parts_components(r, comps);
    }
}

} // verus!
