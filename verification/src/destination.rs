//! Absolute, normalised paths inside a package, and the links between them.

use vstd::prelude::*;

use crate::chars::control;
use crate::digits::{code_point, hex_padded};
use crate::error::{outcome, Error, ErrorView, Result};
use crate::name::{absolute_splits, joined_with_lead};
use crate::strings::{
    chars_of, join, join_splits_back, joined, same, split, split_at_char, split_joins_back,
    split_step, views, views_push,
};
use crate::text::{find_in, first_in, first_in_exact, in_class, CharClass};

verus! {

// ---- the normal form ------------------------------------------------------------------

/// The components of an absolute path.
pub open spec fn parts_of(s: Seq<char>) -> Seq<Seq<char>> {
    split_at_char(s, '/').skip(1)
}

/// A component that names an entry: no separator, not empty, neither `.` nor `..`, no control
/// character.
pub open spec fn normal_part(p: Seq<char>) -> bool {
    &&& p.len() > 0
    &&& p != "."@
    &&& p != ".."@
    &&& forall|i: int| 0 <= i < p.len() ==> !control(#[trigger] p[i])
}

pub open spec fn normal_parts(parts: Seq<Seq<char>>) -> bool {
    forall|i: int| 0 <= i < parts.len() ==> normal_part(#[trigger] parts[i])
}

pub open spec fn no_separator(parts: Seq<Seq<char>>) -> bool {
    forall|i: int| 0 <= i < parts.len() ==> !(#[trigger] parts[i]).contains('/')
}

/// The path with these components.
pub open spec fn path_with(parts: Seq<Seq<char>>) -> Seq<char> {
    "/"@ + joined(parts, "/"@)
}

/// A path in normal form: absolute, not the root, every component normal.
pub open spec fn destination_form(s: Seq<char>) -> bool {
    &&& s.len() > 0
    &&& s[0] == '/'
    &&& parts_of(s).len() > 0
    &&& normal_parts(parts_of(s))
}

/// A path made of components has those components.
pub proof fn path_has_its_parts(parts: Seq<Seq<char>>)
    requires
        parts.len() > 0,
        no_separator(parts),
    ensures
        parts_of(path_with(parts)) == parts,
        path_with(parts).len() > 0,
        path_with(parts)[0] == '/',
{
    absolute_splits(parts);
    assert((seq![Seq::<char>::empty()] + parts).skip(1) =~= parts);
    reveal_strlit("/");
}

proof fn leading_separator(s: Seq<char>, sep: char)
    requires
        s.len() > 0,
        s[0] == sep,
    ensures
        split_at_char(s, sep).len() >= 2,
        split_at_char(s, sep)[0] == Seq::<char>::empty(),
    decreases s.len(),
{
    if s.len() == 1 {
        assert(s.drop_last() =~= Seq::empty());
        split_step(s.drop_last(), s.last(), sep);
        assert(s.drop_last().push(s.last()) =~= s);
        assert(split_at_char(s.drop_last(), sep) =~= seq![Seq::<char>::empty()]);
    } else {
        leading_separator(s.drop_last(), sep);
    }
}

/// A path in normal form is made of its components.
pub proof fn form_is_its_parts(s: Seq<char>)
    requires
        destination_form(s),
    ensures
        s == path_with(parts_of(s)),
        no_separator(parts_of(s)),
{
    let all = split_at_char(s, '/');
    split_joins_back(s, '/');
    leading_separator(s, '/');
    let parts = parts_of(s);
    assert(all =~= seq![Seq::<char>::empty()] + parts);
    reveal_strlit("/");
    assert("/"@ =~= seq!['/']);
    joined_with_lead(parts, seq!['/']);
    assert forall|i: int| 0 <= i < parts.len() implies !(#[trigger] parts[i]).contains('/') by {
        assert(parts[i] == all[i + 1]);
    }
}

/// Two normal paths with the same components are the same path.
pub proof fn parts_determine_path(a: Seq<char>, b: Seq<char>)
    requires
        destination_form(a),
        destination_form(b),
        parts_of(a) == parts_of(b),
    ensures
        a == b,
{
    form_is_its_parts(a);
    form_is_its_parts(b);
}

// ---- normalising ----------------------------------------------------------------------

/// A name of one component is the path of that component.
pub proof fn one_component(name: Seq<char>)
    requires
        normal_part(name),
        !name.contains('/'),
    ensures
        destination_form("/"@ + name),
{
    reveal_strlit("/");
    let parts = seq![name];
    assert(parts[0] == name);
    path_has_its_parts(parts);
    assert(joined(parts, "/"@) =~= name) by {
        reveal_with_fuel(joined, 2);
    }
    assert(path_with(parts) =~= "/"@ + name);
}

pub open spec fn destination_error(path: Seq<char>, what: Seq<char>) -> ErrorView {
    ErrorView::Manifest { message: "destination `"@ + path + what }
}

/// One component read: `.` and nothing are passed over, `..` takes the last one back.
pub open spec fn stepped(path: Seq<char>, stack: Seq<Seq<char>>, piece: Seq<char>) -> core::result::Result<
    Seq<Seq<char>>,
    ErrorView,
> {
    if piece.len() == 0 || piece == "."@ {
        Ok(stack)
    } else if piece == ".."@ {
        if stack.len() == 0 {
            Err(destination_error(path, "` escapes the package root"@))
        } else {
            Ok(stack.drop_last())
        }
    } else {
        match first_in(piece, CharClass::Control) {
            Some(c) => Err(
                destination_error(
                    path,
                    "` contains the control character U+"@ + hex_padded(c as nat)
                        + "; package metadata is line-oriented and cannot represent it"@,
                ),
            ),
            None => Ok(stack.push(piece)),
        }
    }
}

/// The components left after the first `n` pieces.
pub open spec fn walked(path: Seq<char>, pieces: Seq<Seq<char>>, n: nat) -> core::result::Result<
    Seq<Seq<char>>,
    ErrorView,
>
    decreases n,
{
    if n == 0 {
        Ok(Seq::empty())
    } else {
        match walked(path, pieces, (n - 1) as nat) {
            Err(e) => Err(e),
            Ok(stack) => stepped(path, stack, pieces[n - 1]),
        }
    }
}

/// What normalising comes to.
pub open spec fn destination_of(path: Seq<char>) -> core::result::Result<Seq<char>, ErrorView> {
    let pieces = split_at_char(path, '/');
    if path.len() == 0 {
        Err(ErrorView::Manifest { message: "destination path is empty"@ })
    } else if path[0] != '/' {
        Err(destination_error(path, "` must be absolute"@))
    } else {
        match walked(path, pieces, pieces.len()) {
            Err(e) => Err(e),
            Ok(parts) => if parts.len() == 0 {
                Err(
                    destination_error(
                        path,
                        "` resolves to the package root, which cannot be an entry"@,
                    ),
                )
            } else {
                Ok(path_with(parts))
            },
        }
    }
}

/// What the walk leaves is normal, and holds no separator when the pieces hold none.
proof fn walked_is_normal(path: Seq<char>, pieces: Seq<Seq<char>>, n: nat)
    requires
        n <= pieces.len(),
        no_separator(pieces),
    ensures
        walked(path, pieces, n) matches Ok(stack) ==> normal_parts(stack) && no_separator(stack),
    decreases n,
{
    if n > 0 {
        walked_is_normal(path, pieces, (n - 1) as nat);
        let piece = pieces[n - 1];
        first_in_exact(piece, CharClass::Control);
        if let Ok(before) = walked(path, pieces, (n - 1) as nat) {
            if let Ok(after) = walked(path, pieces, n) {
                assert forall|i: int| 0 <= i < after.len() implies normal_part(
                    #[trigger] after[i],
                ) && !after[i].contains('/') by {
                    if i < before.len() {
                        assert(after[i] == before[i]);
                    } else {
                        assert(after[i] == piece);
                        assert forall|k: int| 0 <= k < piece.len() implies !control(
                            #[trigger] piece[k],
                        ) by {
                            assert(!in_class(piece[k], CharClass::Control));
                        }
                    }
                }
            }
        }
    }
}

/// What normalising produces is in normal form.
pub proof fn destinations_are_normal(path: Seq<char>)
    requires
        destination_of(path) is Ok,
    ensures
        destination_form(destination_of(path)->Ok_0),
{
    let pieces = split_at_char(path, '/');
    split_joins_back(path, '/');
    walked_is_normal(path, pieces, pieces.len());
    path_has_its_parts(walked(path, pieces, pieces.len())->Ok_0);
}

proof fn normal_walk(path: Seq<char>, pieces: Seq<Seq<char>>, n: nat)
    requires
        1 <= n <= pieces.len(),
        pieces[0].len() == 0,
        forall|i: int| 1 <= i < pieces.len() ==> normal_part(#[trigger] pieces[i]),
    ensures
        walked(path, pieces, n) == Ok::<Seq<Seq<char>>, ErrorView>(pieces.subrange(1, n as int)),
    decreases n,
{
    if n == 1 {
        assert(walked(path, pieces, 0) == Ok::<Seq<Seq<char>>, ErrorView>(Seq::empty()));
        assert(pieces.subrange(1, 1) =~= Seq::empty());
    } else {
        normal_walk(path, pieces, (n - 1) as nat);
        let piece = pieces[n - 1];
        assert(normal_part(piece));
        first_in_exact(piece, CharClass::Control);
        if first_in(piece, CharClass::Control) is Some {
            let c = first_in(piece, CharClass::Control)->0;
            let k = piece.index_of(c);
            assert(control(piece[k]));
        }
        assert(pieces.subrange(1, n - 1).push(piece) =~= pieces.subrange(1, n as int));
    }
}

/// Normalising a path that is already normal changes nothing.
pub proof fn normalising_is_idempotent(s: Seq<char>)
    requires
        destination_form(s),
    ensures
        destination_of(s) == Ok::<Seq<char>, ErrorView>(s),
{
    let pieces = split_at_char(s, '/');
    leading_separator(s, '/');
    form_is_its_parts(s);
    assert forall|i: int| 1 <= i < pieces.len() implies normal_part(#[trigger] pieces[i]) by {
        assert(parts_of(s)[i - 1] == pieces[i]);
    }
    normal_walk(s, pieces, pieces.len());
    assert(pieces.subrange(1, pieces.len() as int) =~= parts_of(s));
}

// ---- ancestors and links --------------------------------------------------------------

/// The directories above a path, outermost first.
pub open spec fn ancestors_of(s: Seq<char>) -> Seq<Seq<char>> {
    let parts = parts_of(s);
    Seq::new((parts.len() - 1) as nat, |n: int| path_with(parts.take(n + 1)))
}

pub proof fn ancestor_form(s: Seq<char>, n: int)
    requires
        destination_form(s),
        0 <= n < ancestors_of(s).len(),
    ensures
        destination_form(ancestors_of(s)[n]),
        parts_of(ancestors_of(s)[n]) == parts_of(s).take(n + 1),
{
    form_is_its_parts(s);
    let some = parts_of(s).take(n + 1);
    assert forall|i: int| 0 <= i < some.len() implies !(#[trigger] some[i]).contains('/')
        && normal_part(some[i]) by {
        assert(some[i] == parts_of(s)[i]);
    }
    path_has_its_parts(some);
}

/// An ancestor's ancestors are the path's own, further out.
pub proof fn ancestors_nest(s: Seq<char>, n: int)
    requires
        destination_form(s),
        0 <= n < ancestors_of(s).len(),
    ensures
        ancestors_of(ancestors_of(s)[n]) == ancestors_of(s).take(n),
{
    ancestor_form(s, n);
    let a = ancestors_of(s)[n];
    assert forall|k: int| 0 <= k < n implies #[trigger] ancestors_of(a)[k] == ancestors_of(
        s,
    )[k] by {
        assert(parts_of(s).take(n + 1).take(k + 1) =~= parts_of(s).take(k + 1));
    }
    assert(ancestors_of(a) =~= ancestors_of(s).take(n));
}

/// An ancestor is a proper prefix, so it sorts before what is inside it.
pub proof fn ancestor_is_prefix(s: Seq<char>, n: int)
    requires
        destination_form(s),
        0 <= n < ancestors_of(s).len(),
    ensures
        crate::strings::less(ancestors_of(s)[n], s),
        ancestors_of(s)[n] != s,
{
    form_is_its_parts(s);
    ancestor_form(s, n);
    let parts = parts_of(s);
    let tail = join_splits_prefix(parts, n + 1);
    let a = ancestors_of(s)[n];
    assert(s =~= a + tail);
    crate::strings::less_prefix(a, tail);
    crate::strings::less_irreflexive(s);
}

/// Joining more pieces extends the text.
proof fn join_splits_prefix(parts: Seq<Seq<char>>, k: int) -> (tail: Seq<char>)
    requires
        1 <= k < parts.len(),
    ensures
        joined(parts, "/"@) == joined(parts.take(k), "/"@) + tail,
        tail.len() > 0,
    decreases parts.len(),
{
    reveal_strlit("/");
    let init = parts.drop_last();
    if k == parts.len() - 1 {
        assert(init =~= parts.take(k));
        let tail = "/"@ + parts.last();
        assert(joined(parts, "/"@) =~= joined(parts.take(k), "/"@) + tail);
        tail
    } else {
        let inner = join_splits_prefix(init, k);
        assert(init.take(k) =~= parts.take(k));
        let tail = inner + "/"@ + parts.last();
        assert(joined(parts, "/"@) =~= joined(parts.take(k), "/"@) + tail);
        tail
    }
}

/// How many leading components two lists share, at most `limit`.
pub open spec fn shared_count(a: Seq<Seq<char>>, b: Seq<Seq<char>>, from: int) -> int
    decreases a.len() - from,
{
    if from < 0 || from >= a.len() || from >= b.len() || a[from] != b[from] {
        from
    } else {
        shared_count(a, b, from + 1)
    }
}

/// `..` for each directory to leave, then what is left of the target.
pub open spec fn link_parts(from_dir: Seq<Seq<char>>, to: Seq<Seq<char>>) -> Seq<Seq<char>> {
    let shared = shared_count(from_dir, to, 0);
    Seq::new((from_dir.len() - shared) as nat, |i: int| ".."@) + to.skip(shared)
}

/// The target a link should carry: relative when both ends share a top-level directory,
/// absolute otherwise.
pub open spec fn link_target(link: Seq<char>, target: Seq<char>) -> Seq<char> {
    if parts_of(link)[0] != parts_of(target)[0] {
        target
    } else {
        let parts = link_parts(parts_of(link).drop_last(), parts_of(target));
        if parts.len() == 0 {
            "."@
        } else {
            joined(parts, "/"@)
        }
    }
}

proof fn shared_count_exact(a: Seq<Seq<char>>, b: Seq<Seq<char>>, from: int)
    requires
        0 <= from <= a.len(),
        from <= b.len(),
        a.take(from) == b.take(from),
    ensures
        from <= shared_count(a, b, from) <= a.len(),
        shared_count(a, b, from) <= b.len(),
        a.take(shared_count(a, b, from)) == b.take(shared_count(a, b, from)),
    decreases a.len() - from,
{
    if from < a.len() && from < b.len() && a[from] == b[from] {
        assert(a.take(from + 1) =~= a.take(from).push(a[from]));
        assert(b.take(from + 1) =~= b.take(from).push(b[from]));
        shared_count_exact(a, b, from + 1);
    }
}

/// An absolute, normalised destination path inside the package. Only [`Destination::new`]
/// builds one.
#[derive(Debug, PartialEq, Eq)]
pub struct Destination {
    text: String,
}

impl View for Destination {
    type V = Seq<char>;

    closed spec fn view(&self) -> Seq<char> {
        self.text@
    }
}

impl Destination {
    #[verifier::type_invariant]
    spec fn normal(self) -> bool {
        destination_form(self.text@)
    }

    /// Normalises an absolute path lexically: resolves `.` and `..` without touching the
    /// filesystem, collapses repeated separators, and refuses anything that ascends above the
    /// root.
    pub fn new(path: &str) -> (r: Result<Self>)
        ensures
            outcome(r) == destination_of(path@),
    {
        let v = chars_of(path);
        if v.len() == 0 {
            return Err(Error::manifest("destination path is empty".to_owned()));
        }
        if v[0] != '/' {
            return Err(Self::refused(path, "` must be absolute"));
        }
        let pieces = split(path, '/');
        let ghost all = split_at_char(path@, '/');
        let mut parts: Vec<String> = Vec::new();
        let mut i: usize = 0;
        assert(views(parts@) =~= Seq::empty());
        while i < pieces.len()
            invariant
                i <= pieces@.len(),
                all == split_at_char(path@, '/'),
                views(pieces@) == all,
                path@.len() > 0,
                path@[0] == '/',
                walked(path@, all, i as nat) == Ok::<Seq<Seq<char>>, ErrorView>(views(parts@)),
            decreases pieces@.len() - i,
        {
            let piece = pieces[i].as_str();
            proof {
                assert(all[i as int] == piece@);
            }
            if piece.is_empty() || same(piece, ".") {
                assert(walked(path@, all, (i + 1) as nat) == stepped(path@, views(parts@), piece@));
            } else if same(piece, "..") {
                assert(walked(path@, all, (i + 1) as nat) == stepped(path@, views(parts@), piece@));
                if parts.len() == 0 {
                    proof {
                        walked_fails(path@, all, (i + 1) as nat, all.len());
                    }
                    return Err(Self::refused(path, "` escapes the package root"));
                }
                let ghost before = views(parts@);
                let _ = parts.pop();
                assert(views(parts@) =~= before.drop_last());
            } else {
                assert(walked(path@, all, (i + 1) as nat) == stepped(path@, views(parts@), piece@));
                match find_in(piece, CharClass::Control) {
                    Some(c) => {
                        proof {
                            walked_fails(path@, all, (i + 1) as nat, all.len());
                        }
                        let mut what = "` contains the control character U+".to_owned();
                        what.append(code_point(c).as_str());
                        what.append("; package metadata is line-oriented and cannot represent it");
                        return Err(Self::refused(path, what.as_str()));
                    },
                    None => {},
                }
                let part = piece.to_owned();
                proof {
                    views_push(parts@, part);
                }
                parts.push(part);
            }
            i = i + 1;
        }
        if parts.len() == 0 {
            return Err(
                Self::refused(path, "` resolves to the package root, which cannot be an entry"),
            );
        }
        proof {
            destinations_are_normal(path@);
        }
        let mut text = "/".to_owned();
        text.append(join(&parts, "/").as_str());
        Ok(Destination { text })
    }

    fn refused(path: &str, what: &str) -> (e: Error)
        ensures
            e@ == destination_error(path@, what@),
    {
        let mut m = "destination `".to_owned();
        m.append(path);
        m.append(what);
        Error::manifest(m)
    }

    pub fn as_str(&self) -> (s: &str)
        ensures
            s@ == self@,
            destination_form(s@),
    {
        proof {
            use_type_invariant(self);
        }
        self.text.as_str()
    }

    /// Without the leading separator: the form tar members and `md5sums` entries use.
    pub fn relative_str(&self) -> (s: &str)
        ensures
            s@ == self@.skip(1),
            destination_form(self@),
    {
        proof {
            use_type_invariant(self);
        }
        let n: usize = self.text.as_str().unicode_len();
        assert(self.text@.subrange(1, n as int) =~= self.text@.skip(1));
        self.text.as_str().substring_char(1, n)
    }

    /// The components.
    fn parts(&self) -> (parts: Vec<String>)
        ensures
            views(parts@) == parts_of(self@),
            destination_form(self@),
    {
        proof {
            use_type_invariant(self);
            leading_separator(self.text@, '/');
        }
        let mut all = split(self.text.as_str(), '/');
        let ghost before = views(all@);
        let _ = all.remove(0);
        assert(views(all@) =~= before.skip(1));
        all
    }

    /// The parent destinations, outermost first. Debian tooling requires a directory entry
    /// for every directory containing a packaged file.
    pub fn ancestors(&self) -> (r: Vec<Self>)
        ensures
            views(r@) == ancestors_of(self@),
    {
        let parts = self.parts();
        let ghost names = parts_of(self@);
        let mut out: Vec<Destination> = Vec::new();
        let mut head: Vec<String> = Vec::new();
        let last: usize = parts.len() - 1;
        let mut n: usize = 0;
        assert(views(head@) =~= names.take(0));
        assert(views(out@) =~= ancestors_of(self@).take(0));
        while n < last
            invariant
                n <= last,
                last + 1 == parts@.len(),
                views(parts@) == names,
                names == parts_of(self@),
                destination_form(self@),
                views(head@) == names.take(n as int),
                views(out@) == ancestors_of(self@).take(n as int),
            decreases last - n,
        {
            let part = parts[n].clone();
            proof {
                views_push(head@, part);
                assert(part@ == names[n as int]);
                assert(names.take(n + 1) =~= names.take(n as int).push(part@));
            }
            head.push(part);
            let mut text = "/".to_owned();
            text.append(join(&head, "/").as_str());
            proof {
                ancestor_form(self@, n as int);
            }
            let dir = Destination { text };
            proof {
                views_push(out@, dir);
                assert(ancestors_of(self@).take(n + 1) =~= ancestors_of(self@).take(n as int).push(
                    dir@,
                ));
            }
            out.push(dir);
            n = n + 1;
        }
        assert(ancestors_of(self@).take(n as int) =~= ancestors_of(self@));
        out
    }

    /// The directory holding this entry, unless that is the root.
    pub fn parent(&self) -> (r: Option<Self>)
        ensures
            crate::error::opt(r) == (if ancestors_of(self@).len() == 0 {
                None
            } else {
                Some(ancestors_of(self@).last())
            }),
    {
        let mut all = self.ancestors();
        all.pop()
    }

    /// The target a symlink at `self` should carry to point at `target`. Per Debian policy and
    /// `dh_link`: relative when both ends share a top-level directory, absolute otherwise.
    pub fn link_target_from(&self, target: &Self) -> (s: String)
        ensures
            s@ == link_target(self@, target@),
    {
        let mut from = self.parts();
        let to = target.parts();
        assert(views(from@)[0] == from@[0]@);
        assert(views(to@)[0] == to@[0]@);
        if !same(from[0].as_str(), to[0].as_str()) {
            return target.text.clone();
        }
        let ghost dir = parts_of(self@).drop_last();
        let ghost goal = parts_of(target@);
        let _ = from.pop();
        assert(views(from@) =~= dir);
        let mut shared: usize = 0;
        while shared < from.len() && shared < to.len() && same(
            from[shared].as_str(),
            to[shared].as_str(),
        )
            invariant
                shared <= from@.len(),
                shared <= to@.len(),
                views(from@) == dir,
                views(to@) == goal,
                shared_count(dir, goal, 0) == shared_count(dir, goal, shared as int),
            decreases from@.len() - shared,
        {
            assert(dir[shared as int] == from@[shared as int]@);
            assert(goal[shared as int] == to@[shared as int]@);
            shared = shared + 1;
        }
        proof {
            if shared < from@.len() && shared < to@.len() {
                assert(dir[shared as int] == from@[shared as int]@);
                assert(goal[shared as int] == to@[shared as int]@);
            }
        }
        let mut parts: Vec<String> = Vec::new();
        let mut i: usize = shared;
        assert(views(parts@) =~= Seq::new(0, |i: int| ".."@));
        while i < from.len()
            invariant
                shared <= i <= from@.len(),
                views(parts@) == Seq::new((i - shared) as nat, |i: int| ".."@),
            decreases from@.len() - i,
        {
            let up = "..".to_owned();
            proof {
                views_push(parts@, up);
                assert(Seq::new((i + 1 - shared) as nat, |i: int| ".."@) =~= Seq::new(
                    (i - shared) as nat,
                    |i: int| ".."@,
                ).push(".."@));
            }
            parts.push(up);
            i = i + 1;
        }
        let ghost ups = views(parts@);
        let mut k: usize = shared;
        assert(goal.subrange(shared as int, shared as int) =~= Seq::empty());
        assert(ups + goal.subrange(shared as int, shared as int) =~= ups);
        while k < to.len()
            invariant
                shared <= k <= to@.len(),
                views(to@) == goal,
                views(parts@) == ups + goal.subrange(shared as int, k as int),
            decreases to@.len() - k,
        {
            let part = to[k].clone();
            proof {
                views_push(parts@, part);
                assert(goal[k as int] == part@);
                assert(ups + goal.subrange(shared as int, k + 1) =~= (ups + goal.subrange(
                    shared as int,
                    k as int,
                )).push(part@));
            }
            parts.push(part);
            k = k + 1;
        }
        assert(goal.subrange(shared as int, goal.len() as int) =~= goal.skip(shared as int));
        assert(views(parts@) == link_parts(dir, goal));
        if parts.len() == 0 {
            return ".".to_owned();
        }
        join(&parts, "/")
    }
}

impl Clone for Destination {
    fn clone(&self) -> (r: Self)
        ensures
            r@ == self@,
    {
        proof {
            use_type_invariant(self);
        }
        Destination { text: self.text.clone() }
    }
}

proof fn walked_fails(path: Seq<char>, pieces: Seq<Seq<char>>, n: nat, m: nat)
    requires
        n <= m,
        walked(path, pieces, n) is Err,
    ensures
        walked(path, pieces, m) == walked(path, pieces, n),
    decreases m,
{
    if n < m {
        walked_fails(path, pieces, n, (m - 1) as nat);
    }
}

// ---- what a link reaches --------------------------------------------------------------

/// Where the components lead from a directory: `.` stays, `..` leaves, a name enters.
pub open spec fn followed(dir: Seq<Seq<char>>, pieces: Seq<Seq<char>>) -> Option<Seq<Seq<char>>>
    decreases pieces.len(),
{
    if pieces.len() == 0 {
        Some(dir)
    } else {
        match followed(dir, pieces.drop_last()) {
            None => None,
            Some(at) => if pieces.last() == "."@ {
                Some(at)
            } else if pieces.last() == ".."@ {
                if at.len() == 0 {
                    None
                } else {
                    Some(at.drop_last())
                }
            } else {
                Some(at.push(pieces.last()))
            },
        }
    }
}

proof fn followed_ups(dir: Seq<Seq<char>>, n: nat)
    requires
        n <= dir.len(),
    ensures
        followed(dir, Seq::new(n, |i: int| ".."@)) == Some(dir.take(dir.len() - n)),
    decreases n,
{
    let ups = Seq::new(n, |i: int| ".."@);
    reveal_strlit(".");
    reveal_strlit("..");
    if n > 0 {
        followed_ups(dir, (n - 1) as nat);
        assert(ups.drop_last() =~= Seq::new((n - 1) as nat, |i: int| ".."@));
        assert(ups.last() == ".."@);
        assert(".."@ != "."@);
        assert(dir.take(dir.len() - n + 1).drop_last() =~= dir.take(dir.len() - n));
    } else {
        assert(dir.take(dir.len() as int) =~= dir);
    }
}

proof fn followed_names(dir: Seq<Seq<char>>, first: Seq<Seq<char>>, names: Seq<Seq<char>>)
    requires
        followed(dir, first) is Some,
        normal_parts(names),
    ensures
        followed(dir, first + names) == Some(followed(dir, first)->0 + names),
    decreases names.len(),
{
    if names.len() == 0 {
        assert(first + names =~= first);
        assert(followed(dir, first)->0 + names =~= followed(dir, first)->0);
    } else {
        let init = names.drop_last();
        assert forall|i: int| 0 <= i < init.len() implies normal_part(#[trigger] init[i]) by {
            assert(init[i] == names[i]);
        }
        followed_names(dir, first, init);
        assert((first + names).drop_last() =~= first + init);
        assert(normal_part(names[names.len() - 1]));
        assert((followed(dir, first)->0 + init).push(names.last()) =~= followed(dir, first)->0
            + names);
    }
}

/// A link reaches its target: followed from the directory the link stands in, the stored text
/// leads to the components of the target; an absolute one is the target itself.
pub proof fn links_reach_their_target(link: Seq<char>, target: Seq<char>)
    requires
        destination_form(link),
        destination_form(target),
    ensures
        link_target(link, target).len() > 0,
        link_target(link, target)[0] == '/' ==> link_target(link, target) == target,
        link_target(link, target)[0] != '/' ==> followed(
            parts_of(link).drop_last(),
            split_at_char(link_target(link, target), '/'),
        ) == Some(parts_of(target)),
{
    let dir = parts_of(link).drop_last();
    let to = parts_of(target);
    form_is_its_parts(link);
    form_is_its_parts(target);
    reveal_strlit(".");
    reveal_strlit("..");
    reveal_strlit("/");
    if parts_of(link)[0] == to[0] {
        assert(dir.take(0) =~= to.take(0));
        shared_count_exact(dir, to, 0);
        let shared = shared_count(dir, to, 0);
        let ups = Seq::new((dir.len() - shared) as nat, |i: int| ".."@);
        let rest = to.skip(shared);
        let parts = ups + rest;
        followed_ups(dir, (dir.len() - shared) as nat);
        assert forall|i: int| 0 <= i < rest.len() implies normal_part(#[trigger] rest[i]) by {
            assert(rest[i] == to[i + shared]);
        }
        followed_names(dir, ups, rest);
        assert(dir.take(shared) + rest =~= to);
        assert forall|i: int| 0 <= i < parts.len() implies !(#[trigger] parts[i]).contains('/')
            && parts[i].len() > 0 by {
            if i < ups.len() {
                assert(parts[i] == ".."@);
            } else {
                assert(parts[i] == to[i - ups.len() + shared]);
                assert(normal_part(to[i - ups.len() + shared]));
            }
        }
        if parts.len() == 0 {
            assert(!"."@.contains('/'));
            crate::strings::split_whole("."@, '/');
            let dot = seq!["."@];
            assert(dot.drop_last() =~= Seq::empty());
            assert(followed(dir, dot.drop_last()) == Some(dir));
            assert(followed(dir, dot) == Some(dir));
            assert(dir =~= to);
        } else {
            assert("/"@ =~= seq!['/']);
            join_splits_back(parts, '/');
            joined_starts(parts, "/"@);
            assert(parts[0].contains(parts[0][0]));
        }
    } else {
        assert(target[0] == '/');
    }
}

/// Text around a separator splits into the pieces before it and those after it.
proof fn split_concat(s: Seq<char>, tail: Seq<char>, sep: char)
    ensures
        split_at_char(s.push(sep) + tail, sep) == split_at_char(s, sep) + split_at_char(tail, sep),
    decreases tail.len(),
{
    split_step(s, sep, sep);
    if tail.len() == 0 {
        assert(s.push(sep) + tail =~= s.push(sep));
        assert(split_at_char(s, sep).push(Seq::empty()) =~= split_at_char(s, sep) + split_at_char(
            tail,
            sep,
        ));
    } else {
        let t = tail.drop_last();
        split_concat(s, t, sep);
        split_step(s.push(sep) + t, tail.last(), sep);
        split_step(t, tail.last(), sep);
        assert((s.push(sep) + t).push(tail.last()) =~= s.push(sep) + tail);
        assert(t.push(tail.last()) =~= tail);
        let head = split_at_char(s, sep);
        let rest = split_at_char(t, sep);
        assert((head + rest).last() == rest.last());
        assert(split_at_char(s.push(sep) + tail, sep) =~= head + split_at_char(tail, sep));
    }
}

/// Walking a path goes where its pieces lead.
proof fn walking_follows(
    path: Seq<char>,
    lead: Seq<Seq<char>>,
    dir: Seq<Seq<char>>,
    pieces: Seq<Seq<char>>,
    k: nat,
)
    requires
        k <= pieces.len(),
        lead == seq![Seq::<char>::empty()] + dir,
        normal_parts(dir),
        followed(dir, pieces) is Some,
        forall|i: int|
            0 <= i < pieces.len() ==> (#[trigger] pieces[i] == "."@ || pieces[i] == ".."@
                || normal_part(pieces[i])),
    ensures
        followed(dir, pieces.take(k as int)) is Some,
        walked(path, lead + pieces, lead.len() + k) == Ok::<Seq<Seq<char>>, ErrorView>(
            followed(dir, pieces.take(k as int))->0,
        ),
    decreases k,
{
    let all = lead + pieces;
    followed_before(dir, pieces, k as int);
    if k == 0 {
        assert(pieces.take(0) =~= Seq::empty());
        leading_walk(path, all, dir, lead.len());
        assert(all.subrange(1, lead.len() as int) =~= dir);
    } else {
        walking_follows(path, lead, dir, pieces, (k - 1) as nat);
        let piece = pieces[k - 1];
        assert(all[lead.len() + k - 1] == piece);
        assert(pieces.take(k as int).drop_last() =~= pieces.take(k - 1));
        assert(pieces.take(k as int).last() == piece);
        reveal_strlit(".");
        reveal_strlit("..");
        first_in_exact(piece, CharClass::Control);
        if normal_part(piece) && first_in(piece, CharClass::Control) is Some {
            let c = first_in(piece, CharClass::Control)->0;
            let at = piece.index_of(c);
            assert(control(piece[at]));
        }
    }
}

/// The pieces of a directory lead to it.
proof fn leading_walk(path: Seq<char>, all: Seq<Seq<char>>, dir: Seq<Seq<char>>, n: nat)
    requires
        1 <= n <= dir.len() + 1 <= all.len(),
        all[0].len() == 0,
        forall|i: int| 0 <= i < dir.len() ==> all[i + 1] == #[trigger] dir[i],
        normal_parts(dir),
    ensures
        walked(path, all, n) == Ok::<Seq<Seq<char>>, ErrorView>(all.subrange(1, n as int)),
    decreases n,
{
    if n == 1 {
        assert(walked(path, all, 0) == Ok::<Seq<Seq<char>>, ErrorView>(Seq::empty()));
        assert(all.subrange(1, 1) =~= Seq::empty());
    } else {
        leading_walk(path, all, dir, (n - 1) as nat);
        let piece = dir[n - 2];
        assert(all[n - 1] == piece);
        assert(normal_part(piece));
        first_in_exact(piece, CharClass::Control);
        if first_in(piece, CharClass::Control) is Some {
            let c = first_in(piece, CharClass::Control)->0;
            let at = piece.index_of(c);
            assert(control(piece[at]));
        }
        assert(all.subrange(1, n - 1).push(piece) =~= all.subrange(1, n as int));
    }
}

/// Pieces that lead somewhere do so all along the way.
proof fn followed_before(dir: Seq<Seq<char>>, pieces: Seq<Seq<char>>, k: int)
    requires
        0 <= k <= pieces.len(),
        followed(dir, pieces) is Some,
    ensures
        followed(dir, pieces.take(k)) is Some,
    decreases pieces.len() - k,
{
    if k < pieces.len() {
        followed_before(dir, pieces, k + 1);
        assert(pieces.take(k + 1).drop_last() =~= pieces.take(k));
    } else {
        assert(pieces.take(k) =~= pieces);
    }
}

/// A stored link resolves to its target. It is absolute, and then the target itself, exactly
/// where the two differ in their first component; otherwise, read from the directory the link
/// stands in, it normalises to the target. The link stands in `dir`, as `name`.
pub proof fn links_resolve_to_their_target(
    link: Seq<char>,
    target: Seq<char>,
    dir: Seq<char>,
    name: Seq<char>,
)
    requires
        destination_form(link),
        destination_form(target),
        link == dir + "/"@ + name,
        !name.contains('/'),
    ensures
        link_target(link, target).len() > 0,
        link_target(link, target)[0] == '/' <==> parts_of(link)[0] != parts_of(target)[0],
        link_target(link, target)[0] == '/' ==> link_target(link, target) == target,
        link_target(link, target)[0] != '/' ==> destination_of(
            dir + "/"@ + link_target(link, target),
        ) == Ok::<Seq<char>, ErrorView>(target),
        dir == target ==> link_target(link, target) == "."@,
{
    let above = parts_of(link).drop_last();
    let to = parts_of(target);
    let stored = link_target(link, target);
    links_reach_their_target(link, target);
    form_is_its_parts(link);
    form_is_its_parts(target);
    reveal_strlit("/");
    reveal_strlit(".");
    reveal_strlit("..");
    assert("/"@ =~= seq!['/']);
    assert(dir.push('/') + name =~= link);
    split_concat(dir, name, '/');
    crate::strings::split_whole(name, '/');
    leading_separator(link, '/');
    let lead = split_at_char(dir, '/');
    split_joins_back(dir, '/');
    assert(split_at_char(link, '/') =~= lead + seq![name]);
    assert(lead[0] == split_at_char(link, '/')[0]);
    assert(lead =~= seq![Seq::<char>::empty()] + above) by {
        assert forall|i: int| 0 <= i < above.len() implies lead[i + 1] == #[trigger] above[i] by {
            assert(split_at_char(link, '/')[i + 1] == parts_of(link)[i]);
        }
        assert(parts_of(link).len() == lead.len());
    }
    assert forall|i: int| 0 <= i < above.len() implies normal_part(#[trigger] above[i]) by {
        assert(above[i] == parts_of(link)[i]);
    }
    if parts_of(link)[0] == to[0] {
        assert(above.take(0) =~= to.take(0));
        shared_count_exact(above, to, 0);
        let shared = shared_count(above, to, 0);
        let parts = link_parts(above, to);
        let pieces = split_at_char(stored, '/');
        assert forall|i: int| 0 <= i < parts.len() implies !(#[trigger] parts[i]).contains('/')
            && (parts[i] == ".."@ || normal_part(parts[i])) by {
            if i >= above.len() - shared {
                assert(parts[i] == to[i - (above.len() - shared) + shared]);
                assert(normal_part(to[i - (above.len() - shared) + shared]));
            } else {
                assert(parts[i] == ".."@);
            }
        }
        if parts.len() == 0 {
            assert(!"."@.contains('/'));
            crate::strings::split_whole("."@, '/');
        } else {
            join_splits_back(parts, '/');
            joined_starts(parts, "/"@);
            assert(parts[0].contains(parts[0][0]));
        }
        assert(stored[0] != '/');
        let path = dir + "/"@ + stored;
        split_concat(dir, stored, '/');
        assert(dir.push('/') + stored =~= path);
        assert forall|i: int| 0 <= i < pieces.len() implies (#[trigger] pieces[i] == "."@
            || pieces[i] == ".."@ || normal_part(pieces[i])) by {
            if parts.len() > 0 {
                assert(pieces[i] == parts[i]);
            }
        }
        walking_follows(path, lead, above, pieces, pieces.len());
        assert(pieces.take(pieces.len() as int) =~= pieces);
        assert(split_at_char(path, '/') == lead + pieces);
        if dir.len() > 0 {
            assert(path[0] == dir[0] && link[0] == dir[0]);
        } else {
            assert(path[0] == '/');
        }
        if dir == target {
            assert(above =~= to) by {
                assert(split_at_char(dir, '/').skip(1) =~= above);
            }
            shared_of_itself(above, 0);
            assert(parts =~= Seq::empty());
        }
    } else {
        assert(target[0] == '/');
        if dir == target {
            assert(split_at_char(dir, '/').skip(1) =~= above);
            assert(above[0] == parts_of(link)[0]);
        }
    }
}

proof fn shared_of_itself(a: Seq<Seq<char>>, from: int)
    requires
        0 <= from <= a.len(),
    ensures
        shared_count(a, a, from) == a.len(),
    decreases a.len() - from,
{
    if from < a.len() {
        shared_of_itself(a, from + 1);
    }
}

/// A relative link takes all its steps up first, and as few as any way to its target: names
/// that reach the target behind `n` steps up do so behind no fewer than the link has.
pub proof fn links_take_the_fewest_steps_up(
    link: Seq<char>,
    target: Seq<char>,
    n: nat,
    names: Seq<Seq<char>>,
)
    requires
        destination_form(link),
        destination_form(target),
        parts_of(link)[0] == parts_of(target)[0],
        n <= parts_of(link).drop_last().len(),
        normal_parts(names),
        followed(parts_of(link).drop_last(), Seq::new(n, |i: int| ".."@) + names) == Some(
            parts_of(target),
        ),
    ensures
        ({
            let dir = parts_of(link).drop_last();
            let parts = link_parts(dir, parts_of(target));
            let ups = dir.len() - shared_count(dir, parts_of(target), 0);
            &&& 0 <= ups <= n
            &&& forall|i: int| 0 <= i < parts.len() ==> (#[trigger] parts[i] == ".."@ <==> i < ups)
            &&& parts.len() > 0 ==> link_target(link, target) == joined(parts, "/"@)
        }),
{
    let dir = parts_of(link).drop_last();
    let to = parts_of(target);
    let parts = link_parts(dir, to);
    assert(dir.take(0) =~= to.take(0));
    shared_count_exact(dir, to, 0);
    let shared = shared_count(dir, to, 0);
    followed_ups(dir, n);
    followed_names(dir, Seq::new(n, |i: int| ".."@), names);
    let kept = dir.len() - n;
    assert(dir.take(kept) + names == to);
    if shared < kept {
        assert(dir.take(kept)[shared] == (dir.take(kept) + names)[shared]);
        shared_stops(dir, to, 0);
    }
    assert forall|i: int| 0 <= i < parts.len() implies (#[trigger] parts[i] == ".."@ <==> i
        < dir.len() - shared) by {
        if i >= dir.len() - shared {
            assert(parts[i] == to[i - (dir.len() - shared) + shared]);
            assert(normal_part(to[i - (dir.len() - shared) + shared]));
        }
    }
}

/// Counting stops at the first component that is not shared.
proof fn shared_stops(a: Seq<Seq<char>>, b: Seq<Seq<char>>, from: int)
    requires
        0 <= from <= a.len(),
    ensures
        ({
            let shared = shared_count(a, b, from);
            shared >= a.len() || shared >= b.len() || a[shared] != b[shared]
        }),
    decreases a.len() - from,
{
    if from < a.len() && from < b.len() && a[from] == b[from] {
        shared_stops(a, b, from + 1);
    }
}

/// Joined text starts with the first piece's first character.
proof fn joined_starts(parts: Seq<Seq<char>>, sep: Seq<char>)
    requires
        parts.len() > 0,
        parts[0].len() > 0,
    ensures
        joined(parts, sep).len() > 0,
        joined(parts, sep)[0] == parts[0][0],
    decreases parts.len(),
{
    if parts.len() > 1 {
        joined_starts(parts.drop_last(), sep);
    }
}

proof fn walking_is_the_same(
    a: Seq<char>,
    b: Seq<char>,
    pieces: Seq<Seq<char>>,
    more: Seq<Seq<char>>,
    n: nat,
)
    requires
        n <= pieces.len(),
    ensures
        walked(a, pieces, n) is Ok <==> walked(b, pieces + more, n) is Ok,
        walked(a, pieces, n) is Ok ==> walked(a, pieces, n)->Ok_0 == walked(
            b,
            pieces + more,
            n,
        )->Ok_0,
    decreases n,
{
    if n > 0 {
        walking_is_the_same(a, b, pieces, more, (n - 1) as nat);
        assert((pieces + more)[n - 1] == pieces[n - 1]);
    }
}

/// A destination is walked name by name: one more name goes one deeper, nothing or a `.` stays,
/// and `..` goes back up.
pub proof fn destinations_are_walked_name_by_name(path: Seq<char>, name: Seq<char>)
    requires
        destination_of(path) is Ok,
        !name.contains('/'),
    ensures
        ({
            let at = destination_of(path)->Ok_0;
            let longer = destination_of(path + "/"@ + name);
            &&& normal_part(name) ==> longer == Ok::<Seq<char>, ErrorView>(
                path_with(parts_of(at).push(name)),
            )
            &&& name.len() == 0 || name == "."@ ==> longer == Ok::<Seq<char>, ErrorView>(at)
            &&& name == ".."@ && parts_of(at).len() > 1 ==> longer == Ok::<Seq<char>, ErrorView>(
                path_with(parts_of(at).drop_last()),
            )
            &&& name == ".."@ && parts_of(at).len() == 1 ==> longer is Err
        }),
{
    reveal_strlit("/");
    reveal_strlit(".");
    reveal_strlit("..");
    assert("."@.len() == 1 && ".."@.len() == 2);
    let whole = path + "/"@ + name;
    assert(whole =~= path.push('/') + name);
    crate::strings::split_append(path, name, '/');
    let pieces = split_at_char(path, '/');
    let n = pieces.len();
    crate::strings::split_joins_back(path, '/');
    assert(pieces.push(name) =~= pieces + seq![name]);
    walking_is_the_same(path, whole, pieces, seq![name], n);
    assert(whole[0] == path[0]);
    walked_is_normal(path, pieces, n);
    let parts = walked(path, pieces, n)->Ok_0;
    path_has_its_parts(parts);
    first_in_exact(name, CharClass::Control);
    if normal_part(name) {
        assert forall|i: int| 0 <= i < name.len() implies !in_class(
            #[trigger] name[i],
            CharClass::Control,
        ) by {
            assert(!control(name[i]));
        }
    }
    assert((pieces + seq![name])[n as int] == name);
    assert(walked(whole, pieces + seq![name], n + 1) == stepped(whole, parts, name));
}

} // verus!
