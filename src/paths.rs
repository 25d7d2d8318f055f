use vstd::prelude::*;

verus! {

/// A segment between separators that names something: neither empty (a
/// doubled or trailing `/`) nor `.`.
pub open spec fn keep_segment(seg: Seq<char>) -> bool {
    seg.len() > 0 && seg != seq!['.']
}

pub open spec fn push_kept(done: Seq<Seq<char>>, seg: Seq<char>) -> Seq<Seq<char>> {
    if keep_segment(seg) {
        done.push(seg)
    } else {
        done
    }
}

/// Reading the first `n` characters of `s`: the components closed so far, and
/// where the open segment starts.
pub open spec fn scan_segments(s: Seq<char>, n: int) -> (Seq<Seq<char>>, int)
    decreases n,
{
    if n <= 0 {
        (Seq::empty(), 0)
    } else {
        let (done, start) = scan_segments(s, n - 1);
        if s[n - 1] == '/' {
            (push_kept(done, s.subrange(start, n - 1)), n)
        } else {
            (done, start)
        }
    }
}

/// The components of a path, in order.
pub open spec fn components(s: Seq<char>) -> Seq<Seq<char>> {
    let (done, start) = scan_segments(s, s.len() as int);
    push_kept(done, s.subrange(start, s.len() as int))
}

pub open spec fn is_absolute(s: Seq<char>) -> bool {
    s.len() > 0 && s[0] == '/'
}

/// Components joined by single separators.
pub open spec fn joined(parts: Seq<Seq<char>>) -> Seq<char>
    decreases parts.len(),
{
    if parts.len() == 0 {
        Seq::empty()
    } else if parts.len() == 1 {
        parts[0]
    } else {
        joined(parts.drop_last()) + seq!['/'] + parts.last()
    }
}

/// The text of a path made of `parts`, rooted when `absolute`.
pub open spec fn path_text(absolute: bool, parts: Seq<Seq<char>>) -> Seq<char> {
    if absolute {
        seq!['/'] + joined(parts)
    } else {
        joined(parts)
    }
}

/// The normal form of a path: doubled and trailing separators and `.`
/// components removed. Two spellings of one path share it.
pub open spec fn normal_form(s: Seq<char>) -> Seq<char> {
    path_text(is_absolute(s), components(s))
}

/// Where the stem of a file name ends, looking at the characters before `n`:
/// at its last dot, unless that dot opens the name.
pub open spec fn stem_end(name: Seq<char>, n: int) -> int
    decreases n,
{
    if n <= 1 {
        name.len() as int
    } else if name[n - 1] == '.' {
        n - 1
    } else {
        stem_end(name, n - 1)
    }
}

/// A file name with its extension replaced by `ext` (added where it had none).
pub open spec fn with_extension(name: Seq<char>, ext: Seq<char>) -> Seq<char> {
    let stem = name.subrange(0, stem_end(name, name.len() as int));
    if ext.len() == 0 {
        stem
    } else {
        stem + seq!['.'] + ext
    }
}

proof fn lemma_scan_start(s: Seq<char>, n: int)
    requires
        0 <= n <= s.len(),
    ensures
        0 <= scan_segments(s, n).1 <= n,
    decreases n,
{
    if n > 0 {
        lemma_scan_start(s, n - 1);
    }
}

proof fn lemma_stem_end(name: Seq<char>, n: int)
    requires
        0 <= n <= name.len(),
    ensures
        0 <= stem_end(name, n) <= name.len(),
    decreases n,
{
    if n > 1 {
        lemma_stem_end(name, n - 1);
    }
}

/// A component as `components` yields it: kept, and free of separators.
pub open spec fn good_segment(seg: Seq<char>) -> bool {
    keep_segment(seg) && !seg.contains('/')
}

proof fn lemma_scan_prefix(s: Seq<char>, t: Seq<char>, n: int)
    requires
        0 <= n <= s.len(),
        n <= t.len(),
        s.subrange(0, n) == t.subrange(0, n),
    ensures
        scan_segments(s, n) == scan_segments(t, n),
    decreases n,
{
    if n > 0 {
        assert(s.subrange(0, n - 1) =~= s.subrange(0, n).subrange(0, n - 1));
        assert(t.subrange(0, n - 1) =~= t.subrange(0, n).subrange(0, n - 1));
        lemma_scan_prefix(s, t, n - 1);
        assert(s[n - 1] == s.subrange(0, n)[n - 1]);
        assert(t[n - 1] == t.subrange(0, n)[n - 1]);
        let st = scan_segments(s, n - 1).1;
        lemma_scan_start(s, n - 1);
        assert(s.subrange(st, n - 1) =~= s.subrange(0, n).subrange(st, n - 1));
        assert(t.subrange(st, n - 1) =~= t.subrange(0, n).subrange(st, n - 1));
    }
}

proof fn lemma_scan_no_separator(s: Seq<char>, k: int, n: int)
    requires
        0 <= k <= n <= s.len(),
        forall|i: int| k <= i < n ==> s[i] != '/',
    ensures
        scan_segments(s, n) == scan_segments(s, k),
    decreases n - k,
{
    if n > k {
        lemma_scan_no_separator(s, k, n - 1);
    }
}

proof fn lemma_scan_good(s: Seq<char>, n: int)
    requires
        0 <= n <= s.len(),
    ensures
        forall|i: int| 0 <= i < scan_segments(s, n).0.len() ==> good_segment(#[trigger] scan_segments(s, n).0[i]),
        forall|i: int| scan_segments(s, n).1 <= i < n ==> s[i] != '/',
    decreases n,
{
    lemma_scan_start(s, n);
    if n > 0 {
        lemma_scan_good(s, n - 1);
        lemma_scan_start(s, n - 1);
        let (d, st) = scan_segments(s, n - 1);
        if s[n - 1] == '/' {
            let seg = s.subrange(st, n - 1);
            if keep_segment(seg) {
                assert(!seg.contains('/')) by {
                    if seg.contains('/') {
                        let j = choose|j: int| 0 <= j < seg.len() && seg[j] == '/';
                        assert(s[st + j] == '/');
                    }
                }
                assert forall|i: int| 0 <= i < d.push(seg).len() implies good_segment(#[trigger] d.push(seg)[i]) by {
                    if i < d.len() {
                        assert(d.push(seg)[i] == d[i]);
                    }
                }
            }
        }
    }
}

/// Every component of a path is kept and free of separators.
proof fn lemma_components_good(s: Seq<char>)
    ensures
        forall|i: int| 0 <= i < components(s).len() ==> good_segment(#[trigger] components(s)[i]),
{
    lemma_scan_good(s, s.len() as int);
    lemma_scan_start(s, s.len() as int);
    let (d, st) = scan_segments(s, s.len() as int);
    let seg = s.subrange(st, s.len() as int);
    if keep_segment(seg) {
        assert(!seg.contains('/')) by {
            if seg.contains('/') {
                let j = choose|j: int| 0 <= j < seg.len() && seg[j] == '/';
                assert(s[st + j] == '/');
            }
        }
        assert forall|i: int| 0 <= i < d.push(seg).len() implies good_segment(#[trigger] d.push(seg)[i]) by {
            if i < d.len() {
                assert(d.push(seg)[i] == d[i]);
            }
        }
    }
}

proof fn lemma_components_extend(x: Seq<char>, w: Seq<char>)
    requires
        good_segment(w),
    ensures
        components(x + seq!['/'] + w) == components(x).push(w),
{
    let t = x + seq!['/'] + w;
    let k = x.len() as int;
    assert forall|i: int| k + 1 <= i < t.len() implies t[i] != '/' by {
        assert(t[i] == w[i - k - 1]);
    }
    lemma_scan_no_separator(t, k + 1, t.len() as int);
    assert(t.subrange(0, k) =~= x.subrange(0, k));
    lemma_scan_prefix(t, x, k);
    lemma_scan_start(x, k);
    let st = scan_segments(x, k).1;
    assert(t.subrange(st, k) =~= x.subrange(st, k));
    assert(t[k] == '/');
    assert(t.subrange(k + 1, t.len() as int) =~= w);
}

proof fn lemma_components_joined(rooted: bool, parts: Seq<Seq<char>>)
    requires
        forall|i: int| 0 <= i < parts.len() ==> good_segment(#[trigger] parts[i]),
    ensures
        components(path_text(rooted, parts)) == parts,
    decreases parts.len(),
{
    let root: Seq<char> = if rooted { seq!['/'] } else { Seq::empty() };
    assert(path_text(rooted, parts) =~= root + joined(parts));
    if parts.len() == 0 {
        let t = root + joined(parts);
        assert(t.subrange(t.len() as int, t.len() as int) =~= Seq::<char>::empty());
        assert(scan_segments(t, 0) == (Seq::<Seq<char>>::empty(), 0int));
        if rooted {
            assert(t =~= seq!['/']);
            assert(t.subrange(0, 0) =~= Seq::<char>::empty());
            assert(scan_segments(t, 1) == (Seq::<Seq<char>>::empty(), 1int));
        } else {
            assert(t.len() == 0);
        }
        assert(components(t) =~= parts);
    } else if parts.len() == 1 {
        if rooted {
            lemma_components_extend(Seq::empty(), parts[0]);
            assert(Seq::<char>::empty() + seq!['/'] + parts[0] =~= root + joined(parts));
            assert(components(Seq::<char>::empty()) =~= Seq::<Seq<char>>::empty()) by {
                assert(Seq::<char>::empty().subrange(0, 0) =~= Seq::<char>::empty());
            }
            assert(Seq::<Seq<char>>::empty().push(parts[0]) =~= parts);
        } else {
            let w = parts[0];
            assert(root + joined(parts) =~= w);
            assert forall|i: int| 0 <= i < w.len() implies w[i] != '/' by {
                if w[i] == '/' {
                    assert(w.contains('/'));
                }
            }
            lemma_scan_no_separator(w, 0, w.len() as int);
            assert(w.subrange(0, w.len() as int) =~= w);
            assert(seq![w] =~= parts);
        }
    } else {
        let init = parts.drop_last();
        assert forall|i: int| 0 <= i < init.len() implies good_segment(#[trigger] init[i]) by {
            assert(init[i] == parts[i]);
        }
        lemma_components_joined(rooted, init);
        assert(path_text(rooted, init) =~= root + joined(init));
        lemma_components_extend(root + joined(init), parts.last());
        assert(root + joined(parts) =~= (root + joined(init)) + seq!['/'] + parts.last());
        assert(init.push(parts.last()) =~= parts);
    }
}

proof fn lemma_joined_first(parts: Seq<Seq<char>>)
    requires
        parts.len() > 0,
        parts[0].len() > 0,
    ensures
        joined(parts).len() > 0,
        joined(parts)[0] == parts[0][0],
    decreases parts.len(),
{
    if parts.len() > 1 {
        let init = parts.drop_last();
        assert(init[0] == parts[0]);
        lemma_joined_first(init);
    }
}

/// Normalising a path twice gives what normalising it once gives.
pub proof fn lemma_normal_form_idempotent(s: Seq<char>)
    ensures
        normal_form(normal_form(s)) == normal_form(s),
{
    let parts = components(s);
    let t = normal_form(s);
    lemma_components_good(s);
    lemma_components_joined(is_absolute(s), parts);
    if !is_absolute(s) && parts.len() > 0 {
        lemma_joined_first(parts);
        assert(parts[0].contains(parts[0][0]));
    }
    assert(is_absolute(t) == is_absolute(s));
}

fn is_kept(seg: &str) -> (r: bool)
    ensures
        r == keep_segment(seg@),
{
    let n = seg.unicode_len();
    if n == 0 {
        false
    } else if n == 1 && seg.get_char(0) == '.' {
        assert(seg@ =~= seq!['.']);
        false
    } else {
        assert(n == 1 ==> seg@ != seq!['.']);
        true
    }
}

/// Splits a path into its components.
pub fn split_components(s: &str) -> (r: Vec<String>)
    ensures
        r.deep_view() == components(s@),
{
    let n = s.unicode_len();
    let mut done: Vec<String> = Vec::new();
    let mut start: usize = 0;
    let mut i: usize = 0;
    while i < n
        invariant
            n == s@.len(),
            i <= n,
            start <= i,
            (done.deep_view(), start as int) == scan_segments(s@, i as int),
        decreases n - i,
    {
        if s.get_char(i) == '/' {
            let seg = s.substring_char(start, i);
            if is_kept(seg) {
                done.push(String::from_str(seg));
                assert(done.deep_view() =~= scan_segments(s@, i as int).0.push(seg@));
            }
            start = i + 1;
        }
        i = i + 1;
    }
    let seg = s.substring_char(start, n);
    if is_kept(seg) {
        let ghost before = done.deep_view();
        done.push(String::from_str(seg));
        assert(done.deep_view() =~= before.push(seg@));
    }
    done
}

proof fn lemma_joined_step(parts: Seq<Seq<char>>, i: int)
    requires
        0 < i < parts.len(),
    ensures
        joined(parts.subrange(0, i + 1)) == joined(parts.subrange(0, i)) + seq!['/'] + parts[i],
{
    let p = parts.subrange(0, i + 1);
    assert(p.drop_last() =~= parts.subrange(0, i));
}

/// The text of the path made of `parts`, rooted when `absolute`.
pub fn join_components(absolute: bool, parts: &Vec<String>) -> (r: String)
    ensures
        r@ == path_text(absolute, parts.deep_view()),
{
    proof {
        reveal_strlit("/");
        assert("/"@ =~= seq!['/']);
    }
    let ghost p = parts.deep_view();
    let mut text = String::new();
    let mut i: usize = 0;
    while i < parts.len()
        invariant
            i <= parts.len(),
            p == parts.deep_view(),
            "/"@ == seq!['/'],
            text@ == joined(p.subrange(0, i as int)),
        decreases parts.len() - i,
    {
        let ghost prev = text@;
        if i > 0 {
            proof {
                lemma_joined_step(p, i as int);
            }
            text.append("/");
        } else {
            assert(p.subrange(0, 1) =~= seq![p[0]]);
        }
        assert(parts@[i as int]@ == p[i as int]);
        text.append(parts[i].as_str());
        assert(i == 0 ==> text@ =~= p[i as int]);
        assert(i > 0 ==> text@ =~= prev + seq!['/'] + p[i as int]);
        i = i + 1;
    }
    assert(p.subrange(0, parts.len() as int) =~= p);
    if absolute {
        let mut rooted = String::from_str("/");
        rooted.append(text.as_str());
        rooted
    } else {
        text
    }
}

/// Whether a path starts at the root.
pub fn path_is_absolute(s: &str) -> (r: bool)
    ensures
        r == is_absolute(s@),
{
    s.unicode_len() > 0 && s.get_char(0) == '/'
}

/// The normal form of a path.
pub fn normalize_path(s: &str) -> (r: String)
    ensures
        r@ == normal_form(s@),
{
    let parts = split_components(s);
    join_components(path_is_absolute(s), &parts)
}

/// A file name with its extension replaced by `ext`.
pub fn replace_extension(name: &str, ext: &str) -> (r: String)
    ensures
        r@ == with_extension(name@, ext@),
{
    proof {
        reveal_strlit(".");
        assert("."@ =~= seq!['.']);
    }
    let n = name.unicode_len();
    let mut k: usize = n;
    let mut end: usize = n;
    while end == n && k > 1
        invariant
            n == name@.len(),
            k <= n,
            end <= n,
            stem_end(name@, n as int) == (if end == n { stem_end(name@, k as int) } else { end as int }),
        decreases k + (if end == n { 1int } else { 0int }),
    {
        if name.get_char(k - 1) == '.' {
            assert(stem_end(name@, k as int) == k - 1);
            end = k - 1;
        } else {
            k = k - 1;
        }
    }
    proof {
        lemma_stem_end(name@, n as int);
        assert(end == n ==> k <= 1 ==> stem_end(name@, k as int) == n);
    }
    let mut r = String::from_str(name.substring_char(0, end));
    if ext.unicode_len() > 0 {
        r.append(".");
        r.append(ext);
    }
    r
}

} // verus!
