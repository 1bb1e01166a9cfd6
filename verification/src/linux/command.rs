//! Running one of a fixed set of commands.
//!
//! A peer only ever picks an id from a published list; nothing it sends reaches
//! a shell, argument, or path. Each command needs an absolute path, a timeout,
//! and an output cap.
use crate::body::views;
use crate::plugin::{quote, quoted};
use crate::plugins::command::{CommandEntry, EntryView, Exited};
use crate::table::{ascending, Table};
use crate::text::{copy_texts, is_empty, join3, starts_with, texts};
use vstd::prelude::*;
use vstd::string::StringExecFns;

verus! {

pub const DEFAULT_TIMEOUT_SECS: u64 = 10;

pub const DEFAULT_OUTPUT_CAP: usize = 64 * 1024;

/// One entry in the machine's own configuration.
#[derive(Debug)]
pub struct CommandSpec {
    pub name: String,
    /// Absolute path; a bare name would resolve through a user's `PATH`.
    pub program: String,
    pub args: Vec<String>,
    pub needs_confirm: bool,
    pub timeout_secs: Option<u64>,
}

/// The model of a [`CommandSpec`].
pub struct SpecView {
    pub name: Seq<char>,
    pub program: Seq<char>,
    pub args: Seq<Seq<char>>,
    pub needs_confirm: bool,
    pub timeout_secs: Option<u64>,
}

impl View for CommandSpec {
    type V = SpecView;

    open spec fn view(&self) -> SpecView {
        SpecView {
            name: self.name@,
            program: self.program@,
            args: texts(self.args@),
            needs_confirm: self.needs_confirm,
            timeout_secs: self.timeout_secs,
        }
    }
}

impl Clone for CommandSpec {
    fn clone(&self) -> (r: CommandSpec)
        ensures
            r@ == self@,
    {
        CommandSpec {
            name: self.name.clone(),
            program: self.program.clone(),
            args: copy_texts(&self.args),
            needs_confirm: self.needs_confirm,
            timeout_secs: self.timeout_secs,
        }
    }
}

impl CommandSpec {
    /// How long the command may take.
    pub fn timeout_secs(&self) -> (n: u64)
        ensures
            n == (match self@.timeout_secs {
                Some(s) => s,
                None => DEFAULT_TIMEOUT_SECS,
            }),
    {
        match self.timeout_secs {
            Some(s) => s,
            None => DEFAULT_TIMEOUT_SECS,
        }
    }
}

pub struct CommandCatalog {
    entries: Table<String, CommandSpec>,
}

impl View for CommandCatalog {
    type V = Map<Seq<char>, SpecView>;

    closed spec fn view(&self) -> Map<Seq<char>, SpecView> {
        self.entries@
    }
}

/// What a list of entries configures; a later entry replaces an earlier one of
/// the same id.
pub open spec fn configured(entries: Seq<(String, CommandSpec)>) -> Map<Seq<char>, SpecView>
    decreases entries.len(),
{
    if entries.len() == 0 {
        Map::empty()
    } else {
        configured(entries.drop_last()).insert(entries.last().0@, entries.last().1@)
    }
}

/// What peers are told of a command: its id and name, never what it runs.
pub open spec fn published(id: Seq<char>, s: SpecView) -> EntryView {
    EntryView { id, name: s.name, needs_confirm: s.needs_confirm }
}

/// The ids of a catalogue, in order.
pub open spec fn ids_of(c: Map<Seq<char>, SpecView>) -> Seq<Seq<char>> {
    ascending::<String>(c.dom())
}

/// What peers are told, in the order of the ids.
pub open spec fn manifest_of(c: Map<Seq<char>, SpecView>) -> Seq<EntryView> {
    ids_of(c).map_values(|id: Seq<char>| published(id, c[id]))
}

/// Whether a program is named by an absolute path.
pub open spec fn is_absolute(program: Seq<char>) -> bool {
    program.len() > 0 && program[0] == '/'
}

/// What is wrong with a command, if anything is.
pub open spec fn fault_in(id: Seq<char>, s: SpecView) -> Option<Seq<char>> {
    if !is_absolute(s.program) {
        Some(
            "command "@ + quoted(id) + " has a relative program "@ + quoted(s.program)
                + "; use an absolute path"@,
        )
    } else if id.len() == 0 {
        Some("a command id may not be empty"@)
    } else {
        None
    }
}

/// Whether the command at `k` is the first that something is wrong with, and
/// `fault` is what is.
pub open spec fn is_first_fault(c: Map<Seq<char>, SpecView>, k: int, fault: Seq<char>) -> bool {
    &&& 0 <= k < ids_of(c).len()
    &&& fault_in(ids_of(c)[k], c[ids_of(c)[k]]) == Some(fault)
    &&& forall|j: int| 0 <= j < k ==> fault_in(#[trigger] ids_of(c)[j], c[ids_of(c)[j]]) is None
}

impl Default for CommandCatalog {
    fn default() -> (c: CommandCatalog)
        ensures
            c@ == Map::<Seq<char>, SpecView>::empty(),
    {
        CommandCatalog { entries: Table::new() }
    }
}

fn starts_with_slash(t: &str) -> (r: bool)
    ensures
        r == is_absolute(t@),
{
    proof {
        reveal_strlit("/");
        if is_absolute(t@) {
            assert("/"@ =~= t@.take(1));
        } else if "/"@.is_prefix_of(t@) {
            assert(t@.take(1)[0] == "/"@[0]);
        }
    }
    starts_with(t, "/")
}

fn find_fault(id: &String, spec: &CommandSpec) -> (r: Option<String>)
    ensures
        r matches Some(e) ==> fault_in(id@, spec@) == Some(e@),
        r is None ==> fault_in(id@, spec@) is None,
{
    if !starts_with_slash(spec.program.as_str()) {
        let mut e = join3("command ", quote(id.as_str()).as_str(), " has a relative program ");
        e.append(quote(spec.program.as_str()).as_str());
        e.append("; use an absolute path");
        return Some(e);
    }
    if is_empty(id.as_str()) {
        return Some("a command id may not be empty".to_owned());
    }
    None
}

impl CommandCatalog {
    pub fn new(entries: Vec<(String, CommandSpec)>) -> (c: CommandCatalog)
        ensures
            c@ == configured(entries@),
    {
        let mut table: Table<String, CommandSpec> = Table::new();
        let ghost all = entries@;
        assert(all.take(0) =~= Seq::empty());
        for e in it: entries
            invariant
                all == it.seq(),
                table@ == configured(all.take(it.index() as int)),
        {
            proof {
                let n = it.index() as int;
                assert(all.take(n + 1).drop_last() =~= all.take(n));
                assert(all.take(n + 1).last() == e);
            }
            let (id, spec) = e;
            table.insert(id, spec);
        }
        assert(all.take(all.len() as int) =~= all);
        CommandCatalog { entries: table }
    }

    /// What to publish to peers: ids and names only, never what a command runs.
    pub fn manifest(&self) -> (r: Vec<CommandEntry>)
        ensures
            views(r@) == manifest_of(self@),
    {
        let mut out: Vec<CommandEntry> = Vec::new();
        let n: usize = self.entries.len();
        let ghost ks = self.entries.keys();
        for i in 0..n
            invariant
                ks == self.entries.keys(),
                n == ks.len(),
                out@.len() == i,
                forall|k: int| 0 <= k < i ==> (#[trigger] out@[k])@ == published(ks[k], self@[ks[k]]),
        {
            let spec = self.entries.value_at(i);
            out.push(
                CommandEntry {
                    id: self.entries.key_at(i).clone(),
                    name: spec.name.clone(),
                    needs_confirm: spec.needs_confirm,
                },
            );
        }
        assert(views(out@) =~= manifest_of(self@));
        out
    }

    pub fn get(&self, id: &str) -> (r: Option<&CommandSpec>)
        ensures
            r is Some <==> self@.dom().contains(id@),
            r matches Some(s) ==> s@ == self@[id@],
    {
        self.entries.get(&id.to_owned())
    }

    pub fn is_empty(&self) -> (r: bool)
        ensures
            r == (ids_of(self@).len() == 0),
            r == (self@.dom() == Set::<Seq<char>>::empty()),
    {
        let n: usize = self.entries.len();
        proof {
            let ks = self.entries.keys();
            if n == 0 {
                assert(ks =~= Seq::empty());
                assert(ks.to_set() =~= Set::<Seq<char>>::empty());
            } else {
                assert(ks.to_set().contains(ks[0]));
            }
        }
        n == 0
    }

    /// Reject a configuration that can't run safely, before it's used from a
    /// phone.
    pub fn validate(&self) -> (r: Result<(), String>)
        ensures
            r is Ok ==> forall|id: Seq<char>|
                self@.dom().contains(id) ==> fault_in(id, #[trigger] self@[id]) is None,
            r matches Err(e) ==> exists|k: int| #[trigger] is_first_fault(self@, k, e@),
    {
        let n: usize = self.entries.len();
        let ghost ks = self.entries.keys();
        for i in 0..n
            invariant
                ks == self.entries.keys(),
                ks == ids_of(self@),
                n == ks.len(),
                ks.to_set() == self@.dom(),
                forall|j: int| 0 <= j < i ==> fault_in(#[trigger] ks[j], self@[ks[j]]) is None,
        {
            match find_fault(self.entries.key_at(i), self.entries.value_at(i)) {
                Some(e) => {
                    let r: Result<(), String> = Err(e);
                    assert(is_first_fault(self@, i as int, r->Err_0@));
                    return r;
                },
                None => {},
            }
        }
        proof {
            assert forall|id: Seq<char>| self@.dom().contains(id) implies fault_in(
                id,
                #[trigger] self@[id],
            ) is None by {
                assert(ks.to_set().contains(id));
                let j = choose|j: int| 0 <= j < ks.len() && ks[j] == id;
                assert(fault_in(ks[j], self@[ks[j]]) is None);
            }
        }
        Ok(())
    }
}

/// How much a command has said on one pipe. Nothing of it is kept; the pipe must
/// still be drained or the process cannot finish.
pub struct Drained {
    seen: usize,
}

impl Drained {
    /// How much, up to the greatest number there is.
    pub closed spec fn total(self) -> usize {
        self.seen
    }

    /// Nothing yet.
    pub fn new() -> (d: Drained)
        ensures
            d.total() == 0,
    {
        Drained { seen: 0 }
    }

    /// So many bytes more.
    pub fn more(&mut self, n: usize)
        ensures
            final(self).total() == (if old(self).total() + n > usize::MAX {
                usize::MAX as int
            } else {
                old(self).total() + n
            }),
    {
        self.seen = self.seen.saturating_add(n);
    }

    /// Whether it was more than is kept.
    pub fn over(&self, cap: usize) -> (r: bool)
        ensures
            r == (self.total() > cap),
    {
        self.seen > cap
    }
}

/// How a command ended. `ended` is `None` where it took too long and was killed;
/// otherwise its exit code, if it has one, and whether either pipe carried more
/// than is kept.
pub fn exited(run_id: u32, ended: Option<(Option<i32>, bool)>) -> (e: Exited)
    ensures
        e == (match ended {
            Some((code, truncated)) => Exited {
                run_id,
                code: match code {
                    Some(c) => c,
                    None => (-1) as i32,
                },
                truncated,
            },
            None => Exited { run_id, code: (-1) as i32, truncated: true },
        }),
{
    match ended {
        Some((code, truncated)) => Exited {
            run_id,
            code: match code {
                Some(c) => c,
                None => -1,
            },
            truncated,
        },
        None => Exited { run_id, code: -1, truncated: true },
    }
}

/// What peers are told of a command does not depend on what it runs: neither the
/// program, nor its arguments, nor its timeout.
pub proof fn the_manifest_tells_nothing_of_what_runs(id: Seq<char>, a: SpecView, b: SpecView)
    requires
        a.name == b.name,
        a.needs_confirm == b.needs_confirm,
    ensures
        published(id, a) == published(id, b),
{
}

/// What is configured is what was listed: every id that was, as the last entry with that
/// id says, and nothing else.
pub proof fn the_last_entry_of_an_id_counts(entries: Seq<(String, CommandSpec)>, i: int, id: Seq<char>)
    ensures
        0 <= i < entries.len() ==> configured(entries).dom().contains(entries[i].0@),
        0 <= i < entries.len() && (forall|j: int|
            i < j < entries.len() ==> (#[trigger] entries[j]).0@ != entries[i].0@) ==> configured(
            entries,
        )[entries[i].0@] == entries[i].1@,
        configured(entries).dom().contains(id) ==> exists|j: int|
            0 <= j < entries.len() && (#[trigger] entries[j]).0@ == id && configured(entries)[id]
                == entries[j].1@,
        configured(entries).dom().finite(),
    decreases entries.len(),
{
    if entries.len() > 0 {
        let less = entries.drop_last();
        the_last_entry_of_an_id_counts(less, i, id);
        if 0 <= i < less.len() && (forall|j: int|
            i < j < entries.len() ==> (#[trigger] entries[j]).0@ != entries[i].0@) {
            assert forall|j: int| i < j < less.len() implies (#[trigger] less[j]).0@ != less[i].0@ by {
                assert(less[j] == entries[j]);
            }
            assert(entries[entries.len() - 1].0@ != entries[i].0@);
        }
        if less.len() > 0 && configured(less).dom().contains(id) && entries.last().0@ != id {
            let j = choose|j: int|
                0 <= j < less.len() && (#[trigger] less[j]).0@ == id && configured(less)[id]
                    == less[j].1@;
            assert(entries[j] == less[j]);
        }
        assert(entries[entries.len() - 1] == entries.last());
    }
}

/// Peers are told of every command once, in the order of the ids, by its id and its name
/// and whether it wants to be confirmed.
pub proof fn every_command_is_published(c: CommandCatalog, r: Vec<CommandEntry>, id: Seq<char>)
    requires
        call_ensures(CommandCatalog::manifest, (&c,), r),
        c@.dom().finite(),
        c@.dom().contains(id),
    ensures
        r.len() == c@.dom().len(),
        exists|i: int|
            0 <= i < r.len() && (#[trigger] r@[i])@.id == id && r@[i]@.name == c@[id].name
                && r@[i]@.needs_confirm == c@[id].needs_confirm,
{
    assert(views(r@) == manifest_of(c@));
    crate::table::each_is_listed_once::<String>(c@.dom());
    let all = ids_of(c@);
    assert(all.contains(id));
    let i = choose|i: int| 0 <= i < all.len() && all[i] == id;
    assert(views(r@)[i] == r@[i]@);
    assert(manifest_of(c@)[i] == published(id, c@[id]));
}

/// Nothing is wrong with a command exactly where its program is named from the root and
/// it has an id.
pub proof fn a_safe_command_has_an_absolute_path_and_an_id(id: Seq<char>, s: SpecView)
    ensures
        fault_in(id, s) is None <==> id.len() > 0 && s.program.len() > 0 && s.program[0] == '/',
        s.program.len() == 0 || s.program[0] != '/' ==> fault_in(id, s) == Some(
            "command "@ + quoted(id) + " has a relative program "@ + quoted(s.program)
                + "; use an absolute path"@,
        ),
{
}

/// A catalogue that is refused has a command that something is wrong with, and none
/// before it in the order of the ids.
pub proof fn only_an_unsafe_catalogue_is_refused(c: CommandCatalog, r: Result<(), String>)
    requires
        call_ensures(CommandCatalog::validate, (&c,), r),
        c@.dom().finite(),
        r is Err,
    ensures
        exists|id: Seq<char>|
            c@.dom().contains(id) && fault_in(id, #[trigger] c@[id]) == Some(r->Err_0@),
{
    let e = r->Err_0;
    let k = choose|k: int| #[trigger] is_first_fault(c@, k, e@);
    crate::table::each_is_listed_once::<String>(c@.dom());
    let id = ids_of(c@)[k];
    assert(ids_of(c@).contains(id));
    assert(fault_in(id, c@[id]) == Some(e@));
}

/// A command that ended by itself is reported with its own code; one without a code, and
/// one that was killed, with minus one; and one that was killed as cut short.
pub proof fn an_ending_is_reported_as_it_was(
    run: u32,
    ended: Option<(Option<i32>, bool)>,
    e: Exited,
    s: CommandSpec,
    secs: u64,
)
    requires
        call_ensures(exited, (run, ended), e),
        call_ensures(CommandSpec::timeout_secs, (&s,), secs),
    ensures
        e.run_id == run,
        ended matches Some((Some(code), cut)) ==> e.code == code && e.truncated == cut,
        ended matches Some((None, cut)) ==> e.code == -1 && e.truncated == cut,
        ended is None ==> e.code == -1 && e.truncated,
        s.timeout_secs is None ==> secs == 10,
        s.timeout_secs matches Some(n) ==> secs == n,
{
}

/// What has been said on a pipe adds up, and is over the cap once it is more than that.
pub proof fn what_is_said_adds_up(
    d: &mut Drained,
    n: usize,
    nothing: (),
    e: Drained,
    cap: usize,
    over: bool,
)
    requires
        call_ensures(Drained::more, (d, n), nothing),
        e.total() == final(d).total(),
        call_ensures(Drained::over, (&e, cap), over),
    ensures
        old(d).total() + n <= usize::MAX ==> e.total() == old(d).total() + n,
        over <==> e.total() > cap,
        old(d).total() + n > cap && cap < usize::MAX ==> over,
{
}

/// A command that is refused is refused by what is wrong with it: by its id and its program
/// where that is not named in full, and for want of an id otherwise.
pub proof fn a_refused_command_is_named(id: Seq<char>, s: SpecView)
    ensures
        s.program.len() > 0 && s.program[0] == '/' ==> fault_in(id, s) == (if id.len() == 0 {
            Some("a command id may not be empty"@)
        } else {
            None
        }),
        s.program.len() == 0 || s.program[0] != '/' ==> fault_in(id, s) == Some(
            "command "@ + quoted(id) + " has a relative program "@ + quoted(s.program)
                + "; use an absolute path"@,
        ),
{
}

} // verus!
