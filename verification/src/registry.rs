//! The command registry: name and alias resolution, dispatch to built-in
//! commands, sorted listings, and fuzzy suggestions by edit distance.
//!
//! Command handlers decide here and act at the caller: executing a command
//! yields a `CommandAction` describing the effect (a message, a directory
//! change, a theme reload), which the caller performs.

use vstd::prelude::*;
use vstd::seq_lib::group_to_multiset_ensures;
use vstd::string::StrSliceExecFns;
use vstd::string::StringExecFns;
use crate::util::{lex_le, lex_le_vec, chars_of, lemma_lex_le_total, lemma_lex_le_trans};

verus! {

broadcast use group_to_multiset_ensures;

/// Levenshtein edit distance between two character sequences.
pub open spec fn lev(a: Seq<char>, b: Seq<char>) -> nat
    decreases a.len() + b.len(),
{
    if a.len() == 0 {
        b.len()
    } else if b.len() == 0 {
        a.len()
    } else {
        let sub = lev(a.drop_last(), b.drop_last()) + if a.last() == b.last() {
            0nat
        } else {
            1nat
        };
        let del = lev(a.drop_last(), b) + 1;
        let ins = lev(a, b.drop_last()) + 1;
        if sub <= del && sub <= ins {
            sub
        } else if del <= ins {
            del
        } else {
            ins
        }
    }
}

/// The distance never exceeds the longer input.
pub proof fn lemma_lev_le(a: Seq<char>, b: Seq<char>)
    ensures
        lev(a, b) <= a.len() || lev(a, b) <= b.len(),
        lev(a, b) <= a.len() + b.len(),
    decreases a.len() + b.len(),
{
    if a.len() > 0 && b.len() > 0 {
        lemma_lev_le(a.drop_last(), b.drop_last());
        lemma_lev_le(a.drop_last(), b);
        lemma_lev_le(a, b.drop_last());
    }
}

/// The edit distance between two strings, by dynamic programming over
/// prefixes.
pub fn levenshtein(a: &str, b: &str) -> (d: usize)
    requires
        a@.len() < usize::MAX,
        b@.len() < usize::MAX,
    ensures
        d == lev(a@, b@),
{
    let av = chars_of(a);
    let bv = chars_of(b);
    let n = bv.len();
    let mut prev: Vec<usize> = Vec::new();
    let mut j: usize = 0;
    while j <= n
        invariant
            j <= n + 1,
            n == b@.len() < usize::MAX,
            av@ == a@,
            bv@ == b@,
            prev@.len() == j,
            forall|k: int| 0 <= k < j ==> prev@[k] == lev(a@.take(0), b@.take(k)),
        decreases n + 1 - j,
    {
        proof {
            assert(a@.take(0) =~= Seq::<char>::empty());
            assert(b@.take(j as int).len() == j);
        }
        prev.push(j);
        j += 1;
    }
    let mut i: usize = 0;
    while i < av.len()
        invariant
            i <= a@.len() < usize::MAX,
            n == b@.len() < usize::MAX,
            av@ == a@,
            bv@ == b@,
            prev@.len() == n + 1,
            forall|k: int| 0 <= k <= n ==> prev@[k] == lev(a@.take(i as int), b@.take(k)),
        decreases av.len() - i,
    {
        let mut curr: Vec<usize> = Vec::new();
        proof {
            assert(a@.take(i + 1).len() == i + 1);
            assert(b@.take(0) =~= Seq::<char>::empty());
        }
        curr.push(i + 1);
        let mut j2: usize = 0;
        while j2 < n
            invariant
                j2 <= n,
                i < a@.len() < usize::MAX,
                n == b@.len() < usize::MAX,
                av@ == a@,
                bv@ == b@,
                prev@.len() == n + 1,
                forall|k: int| 0 <= k <= n ==> prev@[k] == lev(a@.take(i as int), b@.take(k)),
                curr@.len() == j2 + 1,
                forall|k: int| 0 <= k <= j2 ==> curr@[k] == lev(a@.take(i + 1), b@.take(k)),
            decreases n - j2,
        {
            let cost: usize = if av[i] == bv[j2] {
                0
            } else {
                1
            };
            proof {
                lemma_lev_le(a@.take(i as int), b@.take(j2 + 1));
                lemma_lev_le(a@.take(i + 1), b@.take(j2 as int));
                lemma_lev_le(a@.take(i as int), b@.take(j2 as int));
                assert(a@.take(i + 1).drop_last() =~= a@.take(i as int));
                assert(b@.take(j2 + 1).drop_last() =~= b@.take(j2 as int));
                assert(a@.take(i + 1).last() == a@[i as int]);
                assert(b@.take(j2 + 1).last() == b@[j2 as int]);
            }
            let m1 = prev[j2 + 1] + 1;
            let m2 = curr[j2] + 1;
            let m3 = prev[j2] + cost;
            let v = if m3 <= m1 && m3 <= m2 {
                m3
            } else if m1 <= m2 {
                m1
            } else {
                m2
            };
            proof {
                assert(v == lev(a@.take(i + 1), b@.take(j2 + 1)));
            }
            curr.push(v);
            j2 += 1;
        }
        prev = curr;
        i += 1;
    }
    proof {
        assert(a@.take(a@.len() as int) =~= a@);
        assert(b@.take(n as int) =~= b@);
    }
    prev[n]
}

/// The built-in commands a registry can dispatch to.
#[derive(Clone, Copy, PartialEq, Eq, Structural, Debug)]
pub enum CommandKind {
    Hello,
    Clear,
    Cd,
    Help,
    Theme,
}

/// What executing a command asks the caller to do.
pub enum CommandAction {
    /// Print the greeting.
    Hello,
    /// Clear the terminal screen.
    ClearScreen,
    /// Print the `cd` usage line: no path was given.
    CdUsage,
    /// Change the working directory to the given path.
    Cd(String),
    /// Print one command's name, description and usage.
    HelpDetail(String, String, String),
    /// Report an unknown command name, with a suggestion if one is close.
    HelpUnknown(String, Option<String>),
    /// Print the listing of all commands: (name, about, usage), sorted.
    HelpList(Vec<(String, String, String)>),
    /// Reload the prompt theme from its configuration file.
    ThemeReload,
    /// Print the `theme` usage line.
    ThemeUsage,
}

/// What a command is registered as.
pub struct CommandDescriptor {
    pub name: String,
    pub about: String,
    pub usage: String,
    pub aliases: Vec<String>,
    pub kind: CommandKind,
}

/// The mathematical content of a descriptor.
#[verifier::ext_equal]
pub ghost struct DescV {
    pub name: Seq<char>,
    pub about: Seq<char>,
    pub usage: Seq<char>,
    pub aliases: Seq<Seq<char>>,
    pub kind: CommandKind,
}

impl View for CommandDescriptor {
    type V = DescV;

    open spec fn view(&self) -> DescV {
        DescV {
            name: self.name@,
            about: self.about@,
            usage: self.usage@,
            aliases: self.aliases@.map_values(|s: String| s@),
            kind: self.kind,
        }
    }
}

/// The contract of a built-in command: its identity and what it asks for.
pub trait Command {
    spec fn spec_name(&self) -> Seq<char>;

    spec fn spec_about(&self) -> Seq<char>;

    spec fn spec_usage(&self) -> Seq<char>;

    spec fn spec_aliases(&self) -> Seq<Seq<char>>;

    spec fn spec_kind(&self) -> CommandKind;

    /// Canonical name.
    fn name(&self) -> (r: String)
        ensures
            r@ == self.spec_name(),
    ;

    /// Short description.
    fn about(&self) -> (r: String)
        ensures
            r@ == self.spec_about(),
    ;

    /// Usage line.
    fn usage(&self) -> (r: String)
        ensures
            r@ == self.spec_usage(),
    ;

    /// Alias names.
    fn aliases(&self) -> (r: Vec<String>)
        ensures
            r@.map_values(|s: String| s@) == self.spec_aliases(),
    ;

    /// Which dispatch variant the command is.
    fn kind(&self) -> (r: CommandKind)
        ensures
            r == self.spec_kind(),
    ;
}

/// The registry's content, in registration order.
pub struct CommandRegistry {
    pub commands: Vec<CommandDescriptor>,
}

pub open spec fn reg_view(v: Seq<CommandDescriptor>) -> Seq<DescV> {
    v.map_values(|d: CommandDescriptor| d@)
}

impl View for CommandRegistry {
    type V = Seq<DescV>;

    open spec fn view(&self) -> Seq<DescV> {
        reg_view(self.commands@)
    }
}

/// Canonical names are unique and of machine-representable length.
pub open spec fn reg_wf(rs: Seq<DescV>) -> bool {
    &&& forall|i: int, j: int|
        0 <= i < j < rs.len() ==> (#[trigger] rs[i]).name != (#[trigger] rs[j]).name
    &&& forall|i: int| 0 <= i < rs.len() ==> (#[trigger] rs[i]).name.len() < usize::MAX - 2
}

/// The index of the descriptor with canonical name `s`, or -1.
pub open spec fn name_idx(rs: Seq<DescV>, s: Seq<char>) -> int
    decreases rs.len(),
{
    if rs.len() == 0 {
        -1
    } else if rs.last().name == s {
        rs.len() - 1
    } else {
        name_idx(rs.drop_last(), s)
    }
}

/// The index of the latest-registered descriptor with `s` among its
/// aliases, or -1.
pub open spec fn alias_idx(rs: Seq<DescV>, s: Seq<char>) -> int
    decreases rs.len(),
{
    if rs.len() == 0 {
        -1
    } else if rs.last().aliases.contains(s) {
        rs.len() - 1
    } else {
        alias_idx(rs.drop_last(), s)
    }
}

/// Resolution: the canonical name directly, then through an alias.
pub open spec fn resolve_idx(rs: Seq<DescV>, s: Seq<char>) -> int {
    if name_idx(rs, s) >= 0 {
        name_idx(rs, s)
    } else {
        alias_idx(rs, s)
    }
}

proof fn lemma_name_idx_bounds(rs: Seq<DescV>, s: Seq<char>)
    ensures
        -1 <= name_idx(rs, s) < rs.len(),
        name_idx(rs, s) >= 0 ==> rs[name_idx(rs, s)].name == s,
        name_idx(rs, s) == -1 ==> forall|i: int| 0 <= i < rs.len() ==> (#[trigger] rs[i]).name
            != s,
    decreases rs.len(),
{
    if rs.len() > 0 && rs.last().name != s {
        lemma_name_idx_bounds(rs.drop_last(), s);
        if name_idx(rs, s) == -1 {
            assert forall|i: int| 0 <= i < rs.len() implies (#[trigger] rs[i]).name != s by {
                if i < rs.len() - 1 {
                    assert(rs.drop_last()[i] == rs[i]);
                }
            }
        }
    }
}

proof fn lemma_name_idx_is(rs: Seq<DescV>, s: Seq<char>, i: int)
    requires
        0 <= i < rs.len(),
        rs[i].name == s,
        forall|j: int| 0 <= j < rs.len() && j != i ==> (#[trigger] rs[j]).name != s,
    ensures
        name_idx(rs, s) == i,
    decreases rs.len(),
{
    if i < rs.len() - 1 {
        lemma_name_idx_is(rs.drop_last(), s, i);
    }
}

proof fn lemma_alias_idx_bounds(rs: Seq<DescV>, s: Seq<char>)
    ensures
        -1 <= alias_idx(rs, s) < rs.len(),
        alias_idx(rs, s) >= 0 ==> rs[alias_idx(rs, s)].aliases.contains(s),
        alias_idx(rs, s) == -1 ==> forall|i: int|
            0 <= i < rs.len() ==> !(#[trigger] rs[i]).aliases.contains(s),
    decreases rs.len(),
{
    if rs.len() > 0 && !rs.last().aliases.contains(s) {
        lemma_alias_idx_bounds(rs.drop_last(), s);
        if alias_idx(rs, s) == -1 {
            assert forall|i: int|
                0 <= i < rs.len() implies !(#[trigger] rs[i]).aliases.contains(s) by {
                if i < rs.len() - 1 {
                    assert(rs.drop_last()[i] == rs[i]);
                }
            }
        }
    }
}

proof fn lemma_alias_idx_is(rs: Seq<DescV>, s: Seq<char>, i: int)
    requires
        0 <= i < rs.len(),
        rs[i].aliases.contains(s),
        forall|j: int| i < j < rs.len() ==> !(#[trigger] rs[j]).aliases.contains(s),
    ensures
        alias_idx(rs, s) == i,
    decreases rs.len(),
{
    if i < rs.len() - 1 {
        lemma_alias_idx_is(rs.drop_last(), s, i);
    }
}

/// The least distance from `u` to any canonical name.
pub open spec fn min_dist(rs: Seq<DescV>, u: Seq<char>) -> nat
    recommends
        rs.len() > 0,
    decreases rs.len(),
{
    if rs.len() <= 1 {
        lev(u, rs[0].name)
    } else {
        let rest = min_dist(rs.drop_last(), u);
        let d = lev(u, rs.last().name);
        if rest <= d {
            rest
        } else {
            d
        }
    }
}

/// The first index achieving the least distance.
pub open spec fn first_best(rs: Seq<DescV>, u: Seq<char>) -> int
    recommends
        rs.len() > 0,
    decreases rs.len(),
{
    if rs.len() <= 1 {
        0
    } else if min_dist(rs.drop_last(), u) <= lev(u, rs.last().name) {
        first_best(rs.drop_last(), u)
    } else {
        rs.len() - 1
    }
}

/// What `suggest` returns: the name nearest to `u` (the earliest
/// registered on a tie), provided it is at most two edits away.
pub open spec fn spec_suggest(rs: Seq<DescV>, u: Seq<char>) -> Option<Seq<char>> {
    if rs.len() == 0 || min_dist(rs, u) > 2 {
        None
    } else {
        Some(rs[first_best(rs, u)].name)
    }
}

proof fn lemma_first_best_bounds(rs: Seq<DescV>, u: Seq<char>)
    requires
        rs.len() > 0,
    ensures
        0 <= first_best(rs, u) < rs.len(),
        lev(u, rs[first_best(rs, u)].name) == min_dist(rs, u),
    decreases rs.len(),
{
    if rs.len() > 1 {
        lemma_first_best_bounds(rs.drop_last(), u);
    }
}

/// The distance is at least the length difference.
pub proof fn lemma_lev_ge_diff(a: Seq<char>, b: Seq<char>)
    ensures
        lev(a, b) >= a.len() - b.len(),
        lev(a, b) >= b.len() - a.len(),
    decreases a.len() + b.len(),
{
    if a.len() > 0 && b.len() > 0 {
        lemma_lev_ge_diff(a.drop_last(), b.drop_last());
        lemma_lev_ge_diff(a.drop_last(), b);
        lemma_lev_ge_diff(a, b.drop_last());
    }
}

/// Registration semantics: a colliding canonical name is replaced, and
/// the command moves to the end of the registration order.
pub open spec fn spec_register(rs: Seq<DescV>, d: DescV) -> Seq<DescV> {
    if name_idx(rs, d.name) >= 0 {
        rs.remove(name_idx(rs, d.name)).push(d)
    } else {
        rs.push(d)
    }
}

pub open spec fn triple_view(t: (String, String, String)) -> (Seq<char>, Seq<char>, Seq<char>) {
    (t.0@, t.1@, t.2@)
}

pub open spec fn triples_view(s: Seq<(String, String, String)>) -> Seq<
    (Seq<char>, Seq<char>, Seq<char>),
> {
    s.map_values(|t: (String, String, String)| triple_view(t))
}

/// The (name, about, usage) rows of a registry.
pub open spec fn md_view(rs: Seq<DescV>) -> Seq<(Seq<char>, Seq<char>, Seq<char>)> {
    rs.map_values(|d: DescV| (d.name, d.about, d.usage))
}

/// The canonical names of a registry, in registration order.
pub open spec fn names_of(rs: Seq<DescV>) -> Seq<Seq<char>> {
    rs.map_values(|d: DescV| d.name)
}

pub open spec fn triples_sorted(s: Seq<(Seq<char>, Seq<char>, Seq<char>)>) -> bool {
    forall|i: int, j: int| 0 <= i < j < s.len() ==> lex_le((#[trigger] s[i]).0, (#[trigger] s[j]).0)
}

/// What executing a resolved command of the given kind with the given
/// arguments asks the caller to do.
pub open spec fn action_matches(
    rs: Seq<DescV>,
    kind: CommandKind,
    args: Seq<Seq<char>>,
    act: CommandAction,
) -> bool {
    match kind {
        CommandKind::Hello => act is Hello,
        CommandKind::Clear => act is ClearScreen,
        CommandKind::Cd => match act {
            CommandAction::CdUsage => args.len() == 0,
            CommandAction::Cd(p) => args.len() > 0 && p@ == args[0],
            _ => false,
        },
        CommandKind::Theme => match act {
            CommandAction::ThemeReload => args.len() > 0 && args[0] == "reload"@,
            CommandAction::ThemeUsage => !(args.len() > 0 && args[0] == "reload"@),
            _ => false,
        },
        CommandKind::Help => match act {
            CommandAction::HelpDetail(n, a, u) => args.len() > 0 && name_idx(rs, args[0]) >= 0 && n@
                == rs[name_idx(rs, args[0])].name && a@ == rs[name_idx(rs, args[0])].about && u@
                == rs[name_idx(rs, args[0])].usage,
            CommandAction::HelpUnknown(w, sug) => args.len() > 0 && name_idx(rs, args[0]) == -1
                && w@ == args[0] && (match sug {
                Some(sg) => spec_suggest(rs, args[0]) == Some(sg@),
                None => spec_suggest(rs, args[0]) is None,
            }),
            CommandAction::HelpList(items) => args.len() == 0 && triples_sorted(
                triples_view(items@),
            ) && triples_view(items@).to_multiset() == md_view(rs).to_multiset(),
            _ => false,
        },
    }
}

/// Sorts help rows by canonical name; the result is a permutation.
fn sort_triples(input: Vec<(String, String, String)>) -> (r: Vec<(String, String, String)>)
    ensures
        triples_sorted(triples_view(r@)),
        triples_view(r@).to_multiset() == triples_view(input@).to_multiset(),
{
    let ghost total = triples_view(input@);
    let mut src = input;
    let mut out: Vec<(String, String, String)> = Vec::new();
    proof {
        assert(triples_view(out@) =~= Seq::<(Seq<char>, Seq<char>, Seq<char>)>::empty());
        assert(triples_view(out@).to_multiset().add(triples_view(src@).to_multiset())
            =~= total.to_multiset());
    }
    while src.len() > 0
        invariant
            triples_sorted(triples_view(out@)),
            triples_view(out@).to_multiset().add(triples_view(src@).to_multiset())
                == total.to_multiset(),
        decreases src.len(),
    {
        let ghost svpre = triples_view(src@);
        let x = match src.pop() {
            Some(x) => x,
            None => {
                return out;
            },
        };
        proof {
            assert(triples_view(src@).push(triple_view(x)) =~= svpre);
            assert(svpre.to_multiset() =~= triples_view(src@).to_multiset().insert(
                triple_view(x),
            ));
        }
        let xk = chars_of(x.0.as_str());
        let mut j: usize = 0;
        let mut stop = false;
        while !stop && j < out.len()
            invariant
                j <= out@.len(),
                xk@ == x.0@,
                forall|k: int| 0 <= k < j ==> lex_le(triples_view(out@)[k].0, x.0@),
                stop ==> j < out@.len() && !lex_le(triples_view(out@)[j as int].0, x.0@),
            decreases out.len() - j + (if stop {
                0int
            } else {
                1int
            }),
        {
            let ok = chars_of(out[j].0.as_str());
            if lex_le_vec(&ok, &xk) {
                j += 1;
            } else {
                stop = true;
            }
        }
        let ghost opre = triples_view(out@);
        let ghost vpre = out@;
        proof {
            if (j as int) < opre.len() {
                lemma_lex_le_total(opre[j as int].0, x.0@);
            }
        }
        let ghost gx = triple_view(x);
        out.insert(j, x);
        proof {
            let onew = triples_view(out@);
            vpre.insert_ensures(j as int, (out@[j as int]));
            opre.insert_ensures(j as int, gx);
            assert(onew.len() == opre.len() + 1);
            assert forall|i: int| 0 <= i < onew.len() implies onew[i] == opre.insert(
                j as int,
                gx,
            )[i] by {
                assert(out@ == vpre.insert(j as int, out@[j as int]));
                if i < j {
                    assert(out@[i] == vpre[i]);
                } else if i > j {
                    assert(out@[i] == vpre[i - 1]);
                }
            }
            assert(onew =~= opre.insert(j as int, gx));
            assert forall|i1: int, i2: int|
                0 <= i1 < i2 < onew.len() implies lex_le(onew[i1].0, onew[i2].0) by {
                if i1 < j && i2 == j {
                } else if i1 == j && i2 > j {
                    if i2 - 1 > j {
                        lemma_lex_le_trans(gx.0, opre[j as int].0, opre[i2 - 1].0);
                    }
                } else if i1 < j && i2 > j {
                    assert(lex_le(opre[i1].0, opre[i2 - 1].0));
                } else if i1 > j {
                    assert(lex_le(opre[i1 - 1].0, opre[i2 - 1].0));
                } else if i2 < j {
                    assert(lex_le(opre[i1].0, opre[i2].0));
                }
            }
            assert(onew.remove(j as int) =~= opre);
            assert(opre.to_multiset() =~= onew.to_multiset().remove(gx));
            assert(onew[j as int] == gx);
            assert(onew.contains(gx));
            assert(onew.to_multiset().count(gx) > 0);
            assert(onew.to_multiset() =~= opre.to_multiset().insert(gx)) by {
                let m = onew.to_multiset();
                let mp = opre.to_multiset();
                assert(mp == m.remove(gx));
                assert forall|y: (Seq<char>, Seq<char>, Seq<char>)|
                    m.count(y) == mp.insert(gx).count(y) by {
                    if y == gx {
                        assert(mp.count(y) == m.count(y) - 1);
                    } else {
                        assert(mp.count(y) == m.count(y));
                    }
                }
                assert(m =~= mp.insert(gx));
            }
        }
    }
    proof {
        assert(triples_view(src@).to_multiset().len() == 0);
        assert(triples_view(out@).to_multiset().add(triples_view(src@).to_multiset())
            =~= triples_view(out@).to_multiset());
    }
    out
}

/// Sorts names lexicographically; the result is a permutation.
fn sort_names(input: Vec<String>) -> (r: Vec<String>)
    ensures
        forall|i: int, j: int|
            0 <= i < j < r@.len() ==> lex_le((#[trigger] r@[i])@, (#[trigger] r@[j])@),
        r@.map_values(|s: String| s@).to_multiset() == input@.map_values(
            |s: String| s@,
        ).to_multiset(),
{
    let ghost total = input@.map_values(|s: String| s@);
    let mut src = input;
    let mut out: Vec<String> = Vec::new();
    proof {
        assert(out@.map_values(|s: String| s@) =~= Seq::<Seq<char>>::empty());
        assert(out@.map_values(|s: String| s@).to_multiset().add(
            src@.map_values(|s: String| s@).to_multiset(),
        ) =~= total.to_multiset());
    }
    while src.len() > 0
        invariant
            forall|i: int, j: int|
                0 <= i < j < out@.len() ==> lex_le((#[trigger] out@[i])@, (#[trigger] out@[j])@),
            out@.map_values(|s: String| s@).to_multiset().add(
                src@.map_values(|s: String| s@).to_multiset(),
            ) == total.to_multiset(),
        decreases src.len(),
    {
        let ghost svpre = src@.map_values(|s: String| s@);
        let x = match src.pop() {
            Some(x) => x,
            None => {
                return out;
            },
        };
        proof {
            assert(src@.map_values(|s: String| s@).push(x@) =~= svpre);
            assert(svpre.to_multiset() =~= src@.map_values(|s: String| s@).to_multiset().insert(
                x@,
            ));
        }
        let xk = chars_of(x.as_str());
        let mut j: usize = 0;
        let mut stop = false;
        while !stop && j < out.len()
            invariant
                j <= out@.len(),
                xk@ == x@,
                forall|k: int| 0 <= k < j ==> lex_le((#[trigger] out@[k])@, x@),
                stop ==> j < out@.len() && !lex_le(out@[j as int]@, x@),
            decreases out.len() - j + (if stop {
                0int
            } else {
                1int
            }),
        {
            let ok = chars_of(out[j].as_str());
            if lex_le_vec(&ok, &xk) {
                j += 1;
            } else {
                stop = true;
            }
        }
        let ghost opre = out@.map_values(|s: String| s@);
        let ghost vpre = out@;
        proof {
            if (j as int) < vpre.len() {
                lemma_lex_le_total(vpre[j as int]@, x@);
            }
        }
        let ghost gx = x@;
        out.insert(j, x);
        proof {
            let onew = out@.map_values(|s: String| s@);
            vpre.insert_ensures(j as int, out@[j as int]);
            opre.insert_ensures(j as int, gx);
            assert(onew.len() == opre.len() + 1);
            assert forall|i: int| 0 <= i < onew.len() implies onew[i] == opre.insert(
                j as int,
                gx,
            )[i] by {
                assert(out@ == vpre.insert(j as int, out@[j as int]));
                if i < j {
                    assert(out@[i] == vpre[i]);
                } else if i > j {
                    assert(out@[i] == vpre[i - 1]);
                }
            }
            assert(onew =~= opre.insert(j as int, gx));
            assert forall|i1: int, i2: int|
                0 <= i1 < i2 < out@.len() implies lex_le(
                (#[trigger] out@[i1])@,
                (#[trigger] out@[i2])@,
            ) by {
                if i1 < j && i2 == j {
                } else if i1 == j && i2 > j {
                    if i2 - 1 > j {
                        lemma_lex_le_trans(gx, vpre[j as int]@, vpre[i2 - 1]@);
                    }
                } else if i1 < j && i2 > j {
                    assert(lex_le(vpre[i1]@, vpre[i2 - 1]@));
                } else if i1 > j {
                    assert(lex_le(vpre[i1 - 1]@, vpre[i2 - 1]@));
                } else if i2 < j {
                    assert(lex_le(vpre[i1]@, vpre[i2]@));
                }
            }
            assert(onew.remove(j as int) =~= opre);
            assert(opre.to_multiset() =~= onew.to_multiset().remove(gx));
            assert(onew[j as int] == gx);
            assert(onew.contains(gx));
            assert(onew.to_multiset().count(gx) > 0);
            assert(onew.to_multiset() =~= opre.to_multiset().insert(gx)) by {
                let m = onew.to_multiset();
                let mp = opre.to_multiset();
                assert(mp == m.remove(gx));
                assert forall|y: Seq<char>| m.count(y) == mp.insert(gx).count(y) by {
                    if y == gx {
                        assert(mp.count(y) == m.count(y) - 1);
                    } else {
                        assert(mp.count(y) == m.count(y));
                    }
                }
                assert(m =~= mp.insert(gx));
            }
        }
    }
    proof {
        assert(src@.map_values(|s: String| s@).to_multiset().len() == 0);
        assert(out@.map_values(|s: String| s@).to_multiset().add(
            src@.map_values(|s: String| s@).to_multiset(),
        ) =~= out@.map_values(|s: String| s@).to_multiset());
    }
    out
}

impl CommandRegistry {
    /// A registry holding the basic built-in commands.
    pub fn new() -> (r: CommandRegistry)
        ensures
            r@ =~= seq![hello_desc(), clear_desc(), cd_desc(), help_desc()],
            reg_wf(r@),
    {
        let mut r = CommandRegistry { commands: Vec::new() };
        proof {
            assert(reg_view(r.commands@) =~= Seq::<DescV>::empty());
            reveal_strlit("hello");
            reveal_strlit("clear");
            reveal_strlit("cd");
            reveal_strlit("help");
            assert(("hello"@).len() == 5);
            assert(("clear"@).len() == 5);
            assert(("cd"@).len() == 2);
            assert(("help"@).len() == 4);
            assert(("hello"@)[0] == 'h');
            assert(("clear"@)[0] == 'c');
            assert("hello"@ != "clear"@);
            assert("hello"@ != "cd"@);
            assert("hello"@ != "help"@);
            assert("clear"@ != "cd"@);
            assert("clear"@ != "help"@);
            assert("cd"@ != "help"@);
        }
        r.register(&HelloCommand);
        proof {
            assert(r@ =~= seq![hello_desc()]);
        }
        r.register(&ClearCommand);
        proof {
            lemma_name_idx_bounds(seq![hello_desc()], "clear"@);
            assert(name_idx(seq![hello_desc()], "clear"@) == -1);
            assert(r@ =~= seq![hello_desc(), clear_desc()]);
        }
        r.register(&CdCommand);
        proof {
            lemma_name_idx_bounds(seq![hello_desc(), clear_desc()], "cd"@);
            assert(name_idx(seq![hello_desc(), clear_desc()], "cd"@) == -1);
            assert(r@ =~= seq![hello_desc(), clear_desc(), cd_desc()]);
        }
        r.register(&HelpCommand);
        proof {
            lemma_name_idx_bounds(seq![hello_desc(), clear_desc(), cd_desc()], "help"@);
            assert(name_idx(seq![hello_desc(), clear_desc(), cd_desc()], "help"@) == -1);
            assert(r@ =~= seq![hello_desc(), clear_desc(), cd_desc(), help_desc()]);
        }
        r
    }

    /// A registry that also carries the theme command, whose reload the
    /// caller performs against its prompt.
    pub fn new_with_prompt() -> (r: CommandRegistry)
        ensures
            r@ =~= seq![hello_desc(), clear_desc(), cd_desc(), help_desc(), theme_desc()],
            reg_wf(r@),
    {
        let mut r = CommandRegistry::new();
        proof {
            reveal_strlit("hello");
            reveal_strlit("clear");
            reveal_strlit("cd");
            reveal_strlit("help");
            reveal_strlit("theme");
            assert(("theme"@).len() == 5);
            assert(("hello"@)[0] == 'h');
            assert(("clear"@)[0] == 'c');
            assert(("theme"@)[0] == 't');
            assert("theme"@ != "hello"@);
            assert("theme"@ != "clear"@);
            assert("theme"@ != "cd"@);
            assert("theme"@ != "help"@);
        }
        r.register(&ThemeCommand);
        proof {
            lemma_name_idx_bounds(
                seq![hello_desc(), clear_desc(), cd_desc(), help_desc()],
                "theme"@,
            );
            assert(name_idx(seq![hello_desc(), clear_desc(), cd_desc(), help_desc()], "theme"@)
                == -1);
            assert(r@ =~= seq![hello_desc(), clear_desc(), cd_desc(), help_desc(), theme_desc()]);
        }
        r
    }

    /// Register a command, replacing any earlier one of the same name.
    /// A name beyond the machine's range is refused.
    pub fn register<C: Command>(&mut self, cmd: &C)
        requires
            reg_wf(old(self)@),
        ensures
            reg_wf(final(self)@),
            cmd.spec_name().len() < usize::MAX - 2 ==> final(self)@ == spec_register(
                old(self)@,
                DescV {
                    name: cmd.spec_name(),
                    about: cmd.spec_about(),
                    usage: cmd.spec_usage(),
                    aliases: cmd.spec_aliases(),
                    kind: cmd.spec_kind(),
                },
            ),
            cmd.spec_name().len() >= usize::MAX - 2 ==> final(self)@ == old(self)@,
    {
        let name = cmd.name();
        let nl = name.unicode_len();
        if nl >= usize::MAX - 2 {
            return ;
        }
        let ghost rs0 = self@;
        let n = self.commands.len();
        let mut i: usize = 0;
        let mut removed = false;
        while i < n && !removed
            invariant
                i <= n,
                n == rs0.len(),
                !removed ==> self@ == rs0,
                !removed ==> forall|k: int| 0 <= k < i ==> (#[trigger] rs0[k]).name != name@,
                removed ==> i >= 1 && i <= n && rs0[i - 1].name == name@ && self@ == rs0.remove(
                    i - 1,
                ),
                reg_wf(rs0),
            decreases n - i + (if removed {
                0int
            } else {
                1int
            }),
        {
            if self.commands[i].name == name {
                proof {
                    assert(rs0[i as int].name == name@);
                }
                let ghost vpre = self.commands@;
                self.commands.remove(i);
                removed = true;
                proof {
                    assert(reg_view(vpre) == rs0);
                    vpre.remove_ensures(i as int);
                    assert forall|t: int|
                        0 <= t < reg_view(self.commands@).len() implies reg_view(self.commands@)[t]
                        == rs0.remove(i as int)[t] by {
                        if t < i {
                            assert(self.commands@[t] == vpre[t]);
                        } else {
                            assert(self.commands@[t] == vpre[t + 1]);
                        }
                    }
                    assert(reg_view(self.commands@) =~= rs0.remove(i as int));
                }
            }
            i += 1;
        }
        let d = CommandDescriptor {
            name,
            about: cmd.about(),
            usage: cmd.usage(),
            aliases: cmd.aliases(),
            kind: cmd.kind(),
        };
        let ghost dv = d@;
        let ghost mid = self@;
        self.commands.push(d);
        proof {
            assert(reg_view(self.commands@) =~= mid.push(dv));
            if removed {
                lemma_name_idx_is(rs0, name@, i - 1);
                assert(self@ =~= spec_register(rs0, dv));
                // Well-formedness: the surviving names were distinct and
                // none equals the re-registered one.
                assert forall|p: int, q: int|
                    0 <= p < q < self@.len() implies (#[trigger] self@[p]).name
                    != (#[trigger] self@[q]).name by {
                    rs0.remove_ensures(i - 1);
                }
                assert forall|p: int| 0 <= p < self@.len() implies (#[trigger] self@[p]).name.len()
                    < usize::MAX - 2 by {
                    rs0.remove_ensures(i - 1);
                }
            } else {
                lemma_name_idx_bounds(rs0, name@);
                if name_idx(rs0, name@) >= 0 {
                    assert(false);
                }
                assert(self@ =~= spec_register(rs0, dv));
            }
        }
    }

    /// The index of the descriptor whose canonical name is `s`.
    fn find_name(&self, s: &String) -> (r: Option<usize>)
        ensures
            match r {
                Some(i) => i == name_idx(self@, s@) && i < self@.len(),
                None => name_idx(self@, s@) == -1,
            },
    {
        let n = self.commands.len();
        let mut i: usize = n;
        proof {
            assert(self@.take(n as int) =~= self@);
        }
        while i > 0
            invariant
                i <= n,
                n == self@.len(),
                name_idx(self@, s@) == name_idx(self@.take(i as int), s@),
            decreases i,
        {
            i -= 1;
            proof {
                assert(self@.take(i + 1).drop_last() =~= self@.take(i as int));
                assert(self@.take(i + 1).last() == self@[i as int]);
            }
            if self.commands[i].name == *s {
                proof {
                    lemma_name_idx_bounds(self@.take(i + 1), s@);
                }
                return Some(i);
            }
        }
        proof {
            assert(self@.take(0) =~= Seq::<DescV>::empty());
        }
        None
    }

    /// The index the name or alias resolves to, the latest-registered
    /// alias carrier winning.
    fn resolve_index(&self, s: &String) -> (r: Option<usize>)
        ensures
            match r {
                Some(i) => i == resolve_idx(self@, s@) && i < self@.len(),
                None => resolve_idx(self@, s@) == -1,
            },
    {
        match self.find_name(s) {
            Some(i) => {
                return Some(i);
            },
            None => {},
        }
        let n = self.commands.len();
        let mut i: usize = n;
        proof {
            assert(self@.take(n as int) =~= self@);
        }
        while i > 0
            invariant
                i <= n,
                n == self@.len(),
                name_idx(self@, s@) == -1,
                alias_idx(self@, s@) == alias_idx(self@.take(i as int), s@),
            decreases i,
        {
            i -= 1;
            proof {
                assert(self@.take(i + 1).drop_last() =~= self@.take(i as int));
                assert(self@.take(i + 1).last() == self@[i as int]);
            }
            let als = &self.commands[i].aliases;
            let mut k: usize = 0;
            let mut hit = false;
            while k < als.len()
                invariant
                    k <= als@.len(),
                    i < n,
                    n == self@.len(),
                    als@ == self.commands@[i as int].aliases@,
                    hit ==> self@[i as int].aliases.contains(s@),
                    !hit ==> forall|t: int| 0 <= t < k ==> self@[i as int].aliases[t] != s@,
                decreases als.len() - k,
            {
                if als[k] == *s {
                    proof {
                        assert(self@[i as int] == self.commands@[i as int]@);
                        assert(self@[i as int].aliases[k as int] == als@[k as int]@);
                        assert(self@[i as int].aliases[k as int] == s@);
                    }
                    hit = true;
                    k = als.len();
                } else {
                    proof {
                        assert(self@[i as int] == self.commands@[i as int]@);
                        assert(self@[i as int].aliases[k as int] == als@[k as int]@);
                        assert(self@[i as int].aliases[k as int] != s@);
                    }
                    k += 1;
                }
            }
            if hit {
                proof {
                    lemma_alias_idx_bounds(self@.take(i + 1), s@);
                }
                return Some(i);
            }
            proof {
                assert(!self@[i as int].aliases.contains(s@));
            }
        }
        proof {
            assert(self@.take(0) =~= Seq::<DescV>::empty());
        }
        None
    }

    /// The nearest canonical name, when it is at most two edits away; the
    /// earliest registered wins a tie.
    pub fn suggest(&self, unknown: &str) -> (r: Option<String>)
        requires
            reg_wf(self@),
        ensures
            match r {
                Some(s) => spec_suggest(self@, unknown@) == Some(s@),
                None => spec_suggest(self@, unknown@) is None,
            },
    {
        let n = self.commands.len();
        if n == 0 {
            return None;
        }
        let ul = unknown.unicode_len();
        if ul == usize::MAX {
            proof {
                lemma_first_best_bounds(self@, unknown@);
                let fb = first_best(self@, unknown@);
                lemma_lev_ge_diff(unknown@, self@[fb].name);
                assert(self@[fb].name.len() < usize::MAX - 2);
                assert(min_dist(self@, unknown@) > 2);
            }
            return None;
        }
        proof {
            assert(self@[0].name.len() < usize::MAX - 2);
        }
        let mut bd = levenshtein(unknown, self.commands[0].name.as_str());
        let mut bi: usize = 0;
        let mut i: usize = 1;
        proof {
            assert(self@.take(1).len() == 1);
            assert(self@.take(1)[0] == self@[0]);
        }
        while i < n
            invariant
                1 <= i <= n,
                n == self@.len(),
                reg_wf(self@),
                unknown@.len() < usize::MAX,
                bi < i,
                bd == min_dist(self@.take(i as int), unknown@),
                bi == first_best(self@.take(i as int), unknown@),
            decreases n - i,
        {
            proof {
                assert(self@[i as int].name.len() < usize::MAX - 2);
            }
            let d = levenshtein(unknown, self.commands[i].name.as_str());
            proof {
                assert(self@.take(i + 1).drop_last() =~= self@.take(i as int));
                assert(self@.take(i + 1).last() == self@[i as int]);
                assert(self@.take(i + 1)[bi as int] == self@.take(i as int)[bi as int]);
            }
            if d < bd {
                bd = d;
                bi = i;
            }
            i += 1;
        }
        proof {
            assert(self@.take(n as int) =~= self@);
        }
        if bd <= 2 {
            Some(self.commands[bi].name.clone())
        } else {
            None
        }
    }

    /// All (name, about, usage) rows, sorted by name.
    pub fn list_metadata(&self) -> (r: Vec<(String, String, String)>)
        ensures
            triples_sorted(triples_view(r@)),
            triples_view(r@).to_multiset() == md_view(self@).to_multiset(),
    {
        let mut rows: Vec<(String, String, String)> = Vec::new();
        let n = self.commands.len();
        let mut i: usize = 0;
        proof {
            assert(triples_view(rows@) =~= md_view(self@.take(0)));
        }
        while i < n
            invariant
                i <= n,
                n == self@.len(),
                triples_view(rows@) == md_view(self@.take(i as int)),
            decreases n - i,
        {
            let d = &self.commands[i];
            rows.push((d.name.clone(), d.about.clone(), d.usage.clone()));
            proof {
                assert(self@.take(i + 1).drop_last() =~= self@.take(i as int));
                assert(self@.take(i + 1).last() == self@[i as int]);
                assert(md_view(self@.take(i + 1)) =~= md_view(self@.take(i as int)).push(
                    (self@[i as int].name, self@[i as int].about, self@[i as int].usage),
                ));
                assert(triples_view(rows@) =~= md_view(self@.take(i + 1)));
            }
            i += 1;
        }
        proof {
            assert(self@.take(n as int) =~= self@);
        }
        sort_triples(rows)
    }

    /// All canonical names, sorted: a permutation of the registry's own.
    pub fn list_names(&self) -> (r: Vec<String>)
        ensures
            forall|i: int, j: int|
                0 <= i < j < r@.len() ==> lex_le((#[trigger] r@[i])@, (#[trigger] r@[j])@),
            r@.map_values(|s: String| s@).to_multiset() == names_of(self@).to_multiset(),
    {
        let mut names: Vec<String> = Vec::new();
        let n = self.commands.len();
        let mut i: usize = 0;
        proof {
            assert(names@.map_values(|s: String| s@) =~= names_of(self@.take(0)));
        }
        while i < n
            invariant
                i <= n,
                n == self@.len(),
                names@.map_values(|s: String| s@) == names_of(self@.take(i as int)),
            decreases n - i,
        {
            names.push(self.commands[i].name.clone());
            proof {
                assert(self@.take(i + 1).drop_last() =~= self@.take(i as int));
                assert(self@.take(i + 1).last() == self@[i as int]);
                assert(names_of(self@.take(i + 1)) =~= names_of(self@.take(i as int)).push(
                    self@[i as int].name,
                ));
                assert(names@.map_values(|s: String| s@) =~= names_of(self@.take(i + 1)));
            }
            i += 1;
        }
        proof {
            assert(self@.take(n as int) =~= self@);
        }
        sort_names(names)
    }

    /// Execute a name or alias: the action the command asks for, or
    /// nothing when the name does not resolve.
    pub fn execute(&self, cmd: &str, args: &Vec<String>) -> (r: Option<CommandAction>)
        requires
            reg_wf(self@),
        ensures
            match r {
                None => resolve_idx(self@, cmd@) == -1,
                Some(act) => resolve_idx(self@, cmd@) >= 0 && action_matches(
                    self@,
                    self@[resolve_idx(self@, cmd@)].kind,
                    args@.map_values(|s: String| s@),
                    act,
                ),
            },
    {
        let key = cmd.to_owned();
        let i = match self.resolve_index(&key) {
            Some(i) => i,
            None => {
                return None;
            },
        };
        let ghost gargs = args@.map_values(|s: String| s@);
        match self.commands[i].kind {
            CommandKind::Hello => Some(CommandAction::Hello),
            CommandKind::Clear => Some(CommandAction::ClearScreen),
            CommandKind::Cd => {
                if args.len() == 0 {
                    Some(CommandAction::CdUsage)
                } else {
                    Some(CommandAction::Cd(args[0].clone()))
                }
            },
            CommandKind::Theme => {
                if args.len() > 0 && args[0] == String::from_str("reload") {
                    Some(CommandAction::ThemeReload)
                } else {
                    Some(CommandAction::ThemeUsage)
                }
            },
            CommandKind::Help => {
                if args.len() == 0 {
                    Some(CommandAction::HelpList(self.list_metadata()))
                } else {
                    match self.find_name(&args[0]) {
                        Some(k) => Some(
                            CommandAction::HelpDetail(
                                self.commands[k].name.clone(),
                                self.commands[k].about.clone(),
                                self.commands[k].usage.clone(),
                            ),
                        ),
                        None => Some(
                            CommandAction::HelpUnknown(
                                args[0].clone(),
                                self.suggest(args[0].as_str()),
                            ),
                        ),
                    }
                }
            },
        }
    }
}

/// The descriptor each built-in registers as.
pub open spec fn hello_desc() -> DescV {
    DescV {
        name: "hello"@,
        about: "Prints a greeting message."@,
        usage: "hello"@,
        aliases: Seq::empty(),
        kind: CommandKind::Hello,
    }
}

pub open spec fn clear_desc() -> DescV {
    DescV {
        name: "clear"@,
        about: "Clears the terminal screen."@,
        usage: "clear"@,
        aliases: seq!["cls"@],
        kind: CommandKind::Clear,
    }
}

pub open spec fn cd_desc() -> DescV {
    DescV {
        name: "cd"@,
        about: "Changes the current working directory."@,
        usage: "cd <path>"@,
        aliases: Seq::empty(),
        kind: CommandKind::Cd,
    }
}

pub open spec fn help_desc() -> DescV {
    DescV {
        name: "help"@,
        about: "Shows the command list or one command's detail."@,
        usage: "help [command]"@,
        aliases: seq!["h"@],
        kind: CommandKind::Help,
    }
}

pub open spec fn theme_desc() -> DescV {
    DescV {
        name: "theme"@,
        about: "Manages the prompt theme."@,
        usage: "theme reload"@,
        aliases: Seq::empty(),
        kind: CommandKind::Theme,
    }
}

/// Prints a greeting.
pub struct HelloCommand;

/// Clears the screen.
pub struct ClearCommand;

/// Changes the working directory.
pub struct CdCommand;

/// Shows help for the registered commands.
pub struct HelpCommand;

/// Reloads the prompt theme.
pub struct ThemeCommand;

impl Command for HelloCommand {
    open spec fn spec_name(&self) -> Seq<char> {
        hello_desc().name
    }

    open spec fn spec_about(&self) -> Seq<char> {
        hello_desc().about
    }

    open spec fn spec_usage(&self) -> Seq<char> {
        hello_desc().usage
    }

    open spec fn spec_aliases(&self) -> Seq<Seq<char>> {
        hello_desc().aliases
    }

    open spec fn spec_kind(&self) -> CommandKind {
        hello_desc().kind
    }

    fn name(&self) -> (r: String) {
        String::from_str("hello")
    }

    fn about(&self) -> (r: String) {
        String::from_str("Prints a greeting message.")
    }

    fn usage(&self) -> (r: String) {
        String::from_str("hello")
    }

    fn aliases(&self) -> (r: Vec<String>) {
        let r: Vec<String> = Vec::new();
        proof {
            assert(r@.map_values(|s: String| s@) =~= Seq::<Seq<char>>::empty());
        }
        r
    }

    fn kind(&self) -> (r: CommandKind) {
        CommandKind::Hello
    }
}

impl Command for ClearCommand {
    open spec fn spec_name(&self) -> Seq<char> {
        clear_desc().name
    }

    open spec fn spec_about(&self) -> Seq<char> {
        clear_desc().about
    }

    open spec fn spec_usage(&self) -> Seq<char> {
        clear_desc().usage
    }

    open spec fn spec_aliases(&self) -> Seq<Seq<char>> {
        clear_desc().aliases
    }

    open spec fn spec_kind(&self) -> CommandKind {
        clear_desc().kind
    }

    fn name(&self) -> (r: String) {
        String::from_str("clear")
    }

    fn about(&self) -> (r: String) {
        String::from_str("Clears the terminal screen.")
    }

    fn usage(&self) -> (r: String) {
        String::from_str("clear")
    }

    fn aliases(&self) -> (r: Vec<String>) {
        let mut r: Vec<String> = Vec::new();
        r.push(String::from_str("cls"));
        proof {
            assert(r@.map_values(|s: String| s@) =~= seq!["cls"@]);
        }
        r
    }

    fn kind(&self) -> (r: CommandKind) {
        CommandKind::Clear
    }
}

impl Command for CdCommand {
    open spec fn spec_name(&self) -> Seq<char> {
        cd_desc().name
    }

    open spec fn spec_about(&self) -> Seq<char> {
        cd_desc().about
    }

    open spec fn spec_usage(&self) -> Seq<char> {
        cd_desc().usage
    }

    open spec fn spec_aliases(&self) -> Seq<Seq<char>> {
        cd_desc().aliases
    }

    open spec fn spec_kind(&self) -> CommandKind {
        cd_desc().kind
    }

    fn name(&self) -> (r: String) {
        String::from_str("cd")
    }

    fn about(&self) -> (r: String) {
        String::from_str("Changes the current working directory.")
    }

    fn usage(&self) -> (r: String) {
        String::from_str("cd <path>")
    }

    fn aliases(&self) -> (r: Vec<String>) {
        let r: Vec<String> = Vec::new();
        proof {
            assert(r@.map_values(|s: String| s@) =~= Seq::<Seq<char>>::empty());
        }
        r
    }

    fn kind(&self) -> (r: CommandKind) {
        CommandKind::Cd
    }
}

impl Command for HelpCommand {
    open spec fn spec_name(&self) -> Seq<char> {
        help_desc().name
    }

    open spec fn spec_about(&self) -> Seq<char> {
        help_desc().about
    }

    open spec fn spec_usage(&self) -> Seq<char> {
        help_desc().usage
    }

    open spec fn spec_aliases(&self) -> Seq<Seq<char>> {
        help_desc().aliases
    }

    open spec fn spec_kind(&self) -> CommandKind {
        help_desc().kind
    }

    fn name(&self) -> (r: String) {
        String::from_str("help")
    }

    fn about(&self) -> (r: String) {
        String::from_str("Shows the command list or one command's detail.")
    }

    fn usage(&self) -> (r: String) {
        String::from_str("help [command]")
    }

    fn aliases(&self) -> (r: Vec<String>) {
        let mut r: Vec<String> = Vec::new();
        r.push(String::from_str("h"));
        proof {
            assert(r@.map_values(|s: String| s@) =~= seq!["h"@]);
        }
        r
    }

    fn kind(&self) -> (r: CommandKind) {
        CommandKind::Help
    }
}

impl Command for ThemeCommand {
    open spec fn spec_name(&self) -> Seq<char> {
        theme_desc().name
    }

    open spec fn spec_about(&self) -> Seq<char> {
        theme_desc().about
    }

    open spec fn spec_usage(&self) -> Seq<char> {
        theme_desc().usage
    }

    open spec fn spec_aliases(&self) -> Seq<Seq<char>> {
        theme_desc().aliases
    }

    open spec fn spec_kind(&self) -> CommandKind {
        theme_desc().kind
    }

    fn name(&self) -> (r: String) {
        String::from_str("theme")
    }

    fn about(&self) -> (r: String) {
        String::from_str("Manages the prompt theme.")
    }

    fn usage(&self) -> (r: String) {
        String::from_str("theme reload")
    }

    fn aliases(&self) -> (r: Vec<String>) {
        let r: Vec<String> = Vec::new();
        proof {
            assert(r@.map_values(|s: String| s@) =~= Seq::<Seq<char>>::empty());
        }
        r
    }

    fn kind(&self) -> (r: CommandKind) {
        CommandKind::Theme
    }
}

} // verus!
