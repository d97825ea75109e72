//! The event dispatcher: commands against the registry and the kernel broker, and the rhythm of
//! the daemon's main loop.

use crate::engine::BpfEngine;
use crate::ipc::{CmdView, DaemonCmd};
use crate::module::{find_module, found_at, SecurityModule};
use crate::text::{contains, law_contains_means_a_part, occurs_at};
use vstd::prelude::*;

verus! {

/// How long the main loop waits for a command, in milliseconds.
pub const TICK_MS: u64 = 50;

/// How many further commands are handled before the telemetry is polled again.
pub const DRAIN_LIMIT: usize = 10;

/// What a command calls for.
pub enum Reaction {
    /// This reply.
    Reply(String),
    /// A change of the kernel state of a loaded module.
    SetState {
        /// The slug of the module.
        target: String,
        /// The new state.
        enable: bool,
    },
}

/// What came of a change of state.
pub struct Toggled {
    /// The reply to the command.
    pub reply: String,
    /// Whether a registered module changed along with the kernel.
    pub registered: bool,
}

/// The line of one module in the list, in the model.
pub open spec fn list_line(active: bool, slug: Seq<char>, name: Seq<char>) -> Seq<char> {
    " "@ + if active {
        "[ACTIVE]  "@
    } else {
        "[INACTIVE]"@
    } + " "@ + slug + " ("@ + name + ")\n"@
}

/// The list of modules, in the model.
pub open spec fn list_text<M: SecurityModule>(registry: Seq<M>) -> Seq<char>
    decreases registry.len(),
{
    if registry.len() == 0 {
        "MODULE REGISTRY:\n"@
    } else {
        let module = registry.last();
        list_text(registry.drop_last()) + list_line(module.active(), module.id(), module.title())
    }
}

/// The reply for a module that is not loaded, in the model.
pub open spec fn unloaded_text(target: Seq<char>, enable: bool) -> Seq<char> {
    if enable {
        "ERROR: Module '"@ + target
            + "' is not loaded in kernel memory. Check daemon boot logs or restart the service to load new modules.\n"@
    } else {
        "ERROR: Module '"@ + target + "' is not currently active\n"@
    }
}

/// The reply for a change that the kernel took, in the model.
pub open spec fn success_text(target: Seq<char>, enable: bool) -> Seq<char> {
    "SUCCESS: Defense module '"@ + target + "' has been "@ + if enable {
        "ENABLED"@
    } else {
        "DISABLED"@
    } + " via state_map synchronization\n"@
}

/// The reply for a change that the kernel refused, in the model.
pub open spec fn failure_text(target: Seq<char>, error: Seq<char>) -> Seq<char> {
    "ERROR: Failed to update kernel state for '"@ + target + "': "@ + error + "\n"@
}

/// Whether a position is that of index `k`.
pub open spec fn stands_at(at: Option<usize>, k: int) -> bool {
    at matches Some(i) && i == k
}

/// Whether a registry is another one with the module that `target` leads to set to `state`, and
/// nothing else changed.
pub open spec fn toggled<M: SecurityModule>(
    before: Seq<M>,
    after: Seq<M>,
    target: Seq<char>,
    state: bool,
    at: Option<usize>,
) -> bool {
    &&& found_at(before, target, at)
    &&& after.len() == before.len()
    &&& forall|k: int|
        0 <= k < before.len() ==> {
            &&& (#[trigger] after[k]).id() == before[k].id()
            &&& after[k].title() == before[k].title()
            &&& after[k].active() == if stands_at(at, k) {
                state
            } else {
                before[k].active()
            }
        }
}

/// Whether a reaction is a change of state.
pub open spec fn asks_for(reaction: Reaction, slug: Seq<char>, state: bool) -> bool {
    reaction matches Reaction::SetState { target, enable } && target@ == slug && enable == state
}

/// Whether a reaction is a reply.
pub open spec fn says(reaction: Reaction, text: Seq<char>) -> bool {
    reaction matches Reaction::Reply(reply) && reply@ == text
}

/// The main thread of the daemon: it alone changes the registry and the kernel state.
pub struct DaemonActor<M, S> {
    /// The loaded programs.
    pub engine: BpfEngine<S>,
    /// The modules.
    pub registry: Vec<M>,
}

impl<M: SecurityModule, S> DaemonActor<M, S> {
    /// Whether `reaction` is what a command calls for.
    pub open spec fn reacts(&self, cmd: CmdView, reaction: Reaction) -> bool {
        match cmd {
            CmdView::Status => says(reaction, "Bouclier Bleu EDR Status: Kernel Engine Running\n"@),
            CmdView::List => says(reaction, list_text(self.registry@)),
            CmdView::Enable(target) => if self.engine.loaded(target) {
                asks_for(reaction, target, true)
            } else {
                says(reaction, unloaded_text(target, true))
            },
            CmdView::Disable(target) => if self.engine.loaded(target) {
                asks_for(reaction, target, false)
            } else {
                says(reaction, unloaded_text(target, false))
            },
        }
    }

    /// Decides on a command.
    pub fn handle_command(&self, cmd: DaemonCmd) -> (r: Reaction)
        requires
            self.engine.wf(),
        ensures
            self.reacts(cmd@, r),
    {
        match cmd {
            DaemonCmd::Status => Reaction::Reply(
                "Bouclier Bleu EDR Status: Kernel Engine Running\n".to_owned(),
            ),
            DaemonCmd::List => Reaction::Reply(self.list()),
            DaemonCmd::Enable(target) => self.toggle_module(target, true),
            DaemonCmd::Disable(target) => self.toggle_module(target, false),
        }
    }

    /// Lists the modules with their states.
    fn list(&self) -> (r: String)
        ensures
            r@ == list_text(self.registry@),
    {
        let mut out = "MODULE REGISTRY:\n".to_owned();
        let mut i: usize = 0;
        assert(self.registry@.take(0) =~= Seq::empty());
        while i < self.registry.len()
            invariant
                i <= self.registry@.len(),
                out@ == list_text(self.registry@.take(i as int)),
            decreases self.registry@.len() - i,
        {
            let module = &self.registry[i];
            let ghost before = out@;
            out.append(" ");
            if module.status() {
                out.append("[ACTIVE]  ");
            } else {
                out.append("[INACTIVE]");
            }
            out.append(" ");
            out.append(module.slug());
            out.append(" (");
            out.append(module.name());
            out.append(")\n");
            assert(out@ =~= before + list_line(module.active(), module.id(), module.title()));
            assert(self.registry@.take(i + 1).drop_last() =~= self.registry@.take(i as int));
            i = i + 1;
        }
        assert(self.registry@.take(i as int) =~= self.registry@);
        out
    }

    /// Decides on a change of state: only a loaded module can change, nothing is loaded on demand.
    fn toggle_module(&self, target: String, enable: bool) -> (r: Reaction)
        requires
            self.engine.wf(),
        ensures
            self.engine.loaded(target@) ==> asks_for(r, target@, enable),
            !self.engine.loaded(target@) ==> says(r, unloaded_text(target@, enable)),
    {
        if self.engine.get_skeleton(target.as_str()).is_some() {
            return Reaction::SetState { target, enable };
        }
        let mut reply = "ERROR: Module '".to_owned();
        reply.append(target.as_str());
        if enable {
            reply.append(
                "' is not loaded in kernel memory. Check daemon boot logs or restart the service to load new modules.\n",
            );
        } else {
            reply.append("' is not currently active\n");
        }
        Reaction::Reply(reply)
    }

    /// Completes a change of state: `outcome` is what the kernel said to it. The module follows
    /// the kernel; where the kernel refused, nothing changes.
    pub fn complete_toggle(
        &mut self,
        target: &str,
        enable: bool,
        outcome: Result<(), String>,
    ) -> (r: Toggled)
        ensures
            final(self).engine == old(self).engine,
            outcome is Ok ==> r.reply@ == success_text(target@, enable),
            outcome is Ok ==> exists|at: Option<usize>|
                #[trigger] toggled(
                    old(self).registry@,
                    final(self).registry@,
                    target@,
                    enable,
                    at,
                ) && r.registered == (at is Some),
            outcome matches Err(error) ==> {
                &&& r.reply@ == failure_text(target@, error@)
                &&& !r.registered
                &&& final(self).registry == old(self).registry
            },
    {
        match outcome {
            Ok(_) => {
                let at = find_module(self.registry.as_slice(), target);
                let ghost before = self.registry@;
                if let Some(i) = at {
                    self.registry[i].toggle(enable);
                }
                proof {
                    assert(toggled(before, self.registry@, target@, enable, at));
                }
                let mut reply = "SUCCESS: Defense module '".to_owned();
                reply.append(target);
                reply.append("' has been ");
                if enable {
                    reply.append("ENABLED");
                } else {
                    reply.append("DISABLED");
                }
                reply.append(" via state_map synchronization\n");
                Toggled { reply, registered: at.is_some() }
            },
            Err(error) => {
                let mut reply = "ERROR: Failed to update kernel state for '".to_owned();
                reply.append(target);
                reply.append("': ");
                reply.append(error.as_str());
                reply.append("\n");
                Toggled { reply, registered: false }
            },
        }
    }
}

/// The list of modules depends on their states, slugs and names alone.
pub proof fn law_list_shows_states<M: SecurityModule>(a: Seq<M>, b: Seq<M>)
    requires
        a.len() == b.len(),
        forall|k: int|
            0 <= k < a.len() ==> {
                &&& (#[trigger] a[k]).id() == b[k].id()
                &&& a[k].title() == b[k].title()
                &&& a[k].active() == b[k].active()
            },
    ensures
        list_text(a) == list_text(b),
    decreases a.len(),
{
    if a.len() > 0 {
        assert(a[a.len() - 1].id() == b[b.len() - 1].id());
        assert forall|k: int| 0 <= k < a.len() - 1 implies {
            &&& (#[trigger] a.drop_last()[k]).id() == b.drop_last()[k].id()
            &&& a.drop_last()[k].title() == b.drop_last()[k].title()
            &&& a.drop_last()[k].active() == b.drop_last()[k].active()
        } by {
            assert(a[k].id() == b[k].id());
        }
        law_list_shows_states(a.drop_last(), b.drop_last());
    }
}

/// The list names every module, with its state.
pub proof fn law_list_names_every_module<M: SecurityModule>(registry: Seq<M>, k: int)
    requires
        0 <= k < registry.len(),
    ensures
        contains(
            list_text(registry),
            list_line(registry[k].active(), registry[k].id(), registry[k].title()),
        ),
    decreases registry.len(),
{
    let init = registry.drop_last();
    let last = registry.last();
    let last_line = list_line(last.active(), last.id(), last.title());
    let line = list_line(registry[k].active(), registry[k].id(), registry[k].title());
    let whole = list_text(registry);
    if k == registry.len() - 1 {
        let at = list_text(init).len() as int;
        assert(whole.subrange(at, at + line.len()) =~= line);
        assert(occurs_at(whole, line, at));
    } else {
        law_list_names_every_module(init, k);
        let at = choose|at: int| occurs_at(list_text(init), line, at);
        assert(whole.subrange(at, at + line.len()) =~= list_text(init).subrange(
            at,
            at + line.len(),
        ));
        assert(occurs_at(whole, line, at));
    }
}

/// Changing a module's state and changing it back leaves the list as it was.
pub proof fn law_toggle_is_reversible<M: SecurityModule>(
    first: Seq<M>,
    second: Seq<M>,
    third: Seq<M>,
    target: Seq<char>,
    at: usize,
    state: bool,
)
    requires
        toggled(first, second, target, state, Some(at)),
        toggled(second, third, target, first[at as int].active(), Some(at)),
    ensures
        list_text(third) == list_text(first),
{
    assert forall|k: int| 0 <= k < first.len() implies {
        &&& (#[trigger] third[k]).id() == first[k].id()
        &&& third[k].title() == first[k].title()
        &&& third[k].active() == first[k].active()
    } by {
        assert(second[k].id() == first[k].id());
    }
    law_list_shows_states(third, first);
}

/// What the main loop found when it waited for a command.
#[derive(Clone, Copy, PartialEq, Eq, Structural)]
pub enum LoopEvent {
    /// A command.
    Command,
    /// Nothing.
    Idle,
    /// That no command can ever come again.
    Disconnected,
}

/// What one turn of the main loop does, in this order.
#[derive(Clone, Copy, PartialEq, Eq, Structural)]
pub struct Turn {
    /// Whether to handle the command that came.
    pub handle: bool,
    /// How many further commands to handle, of those that wait.
    pub drain: usize,
    /// Whether to poll the telemetry.
    pub poll: bool,
    /// Whether to leave the loop.
    pub stop: bool,
}

/// One turn of the main loop, in the model.
pub open spec fn turn_of(event: LoopEvent) -> Turn {
    match event {
        LoopEvent::Command => Turn { handle: true, drain: DRAIN_LIMIT, poll: true, stop: false },
        LoopEvent::Idle => Turn { handle: false, drain: 0, poll: true, stop: false },
        LoopEvent::Disconnected => Turn { handle: false, drain: 0, poll: false, stop: true },
    }
}

/// One turn of the main loop. Commands are handled as they come, but never so many that the
/// telemetry has to wait.
pub fn next_turn(event: LoopEvent) -> (r: Turn)
    ensures
        r == turn_of(event),
        r.handle == (event == LoopEvent::Command),
        r.drain == if event == LoopEvent::Command {
            DRAIN_LIMIT
        } else {
            0
        },
        r.stop == (event == LoopEvent::Disconnected),
        r.poll == !r.stop,
{
    match event {
        LoopEvent::Command => Turn { handle: true, drain: DRAIN_LIMIT, poll: true, stop: false },
        LoopEvent::Idle => Turn { handle: false, drain: 0, poll: true, stop: false },
        LoopEvent::Disconnected => Turn { handle: false, drain: 0, poll: false, stop: true },
    }
}

/// The list starts with its heading and gives each module one line, in the order of the registry:
/// its state, its slug and its name.
pub proof fn law_list_is_a_line_per_module<M: SecurityModule>(registry: Seq<M>, module: M)
    ensures
        list_text(Seq::<M>::empty()) == "MODULE REGISTRY:\n"@,
        module.active() ==> list_text(registry.push(module)) == list_text(registry) + " "@
            + "[ACTIVE]  "@ + " "@ + module.id() + " ("@ + module.title() + ")\n"@,
        !module.active() ==> list_text(registry.push(module)) == list_text(registry) + " "@
            + "[INACTIVE]"@ + " "@ + module.id() + " ("@ + module.title() + ")\n"@,
{
    let grown = registry.push(module);
    assert(grown.drop_last() =~= registry);
    assert(grown.last() == module);
    let state = if module.active() {
        "[ACTIVE]  "@
    } else {
        "[INACTIVE]"@
    };
    assert(list_text(grown) =~= list_text(registry) + " "@ + state + " "@ + module.id() + " ("@
        + module.title() + ")\n"@);
}

/// A module can be switched exactly if its program is loaded: the kernel is then asked for the state
/// of the command, for that module. For any other module the peer is told its name, and nothing is
/// asked of the kernel. Reporting and listing ask nothing of the kernel either.
pub proof fn law_only_loaded_modules_are_switched<M: SecurityModule, S>(
    actor: DaemonActor<M, S>,
    cmd: CmdView,
    reaction: Reaction,
)
    requires
        actor.reacts(cmd, reaction),
    ensures
        cmd matches CmdView::Enable(slug) ==> {
            &&& actor.engine.names().contains(slug) ==> (reaction matches Reaction::SetState {
                target,
                enable,
            } && target@ == slug && enable)
            &&& !actor.engine.names().contains(slug) ==> (reaction matches Reaction::Reply(reply)
                && contains(reply@, slug))
        },
        cmd matches CmdView::Disable(slug) ==> {
            &&& actor.engine.names().contains(slug) ==> (reaction matches Reaction::SetState {
                target,
                enable,
            } && target@ == slug && !enable)
            &&& !actor.engine.names().contains(slug) ==> (reaction matches Reaction::Reply(reply)
                && contains(reply@, slug))
        },
        cmd is Status || cmd is List ==> reaction is Reply,
        cmd is List ==> (reaction matches Reaction::Reply(reply) && reply@ == list_text(
            actor.registry@,
        )),
{
    match cmd {
        CmdView::Enable(slug) => {
            law_contains_means_a_part(unloaded_text(slug, true), slug);
        },
        CmdView::Disable(slug) => {
            law_contains_means_a_part(unloaded_text(slug, false), slug);
        },
        _ => {},
    }
}

/// What the peer is told of a module that is not loaded: how to load it where it was to be enabled,
/// and that it is not active where it was to be disabled.
pub proof fn law_unloaded_modules_are_explained(target: Seq<char>)
    ensures
        unloaded_text(target, true) == "ERROR: Module '"@ + target
            + "' is not loaded in kernel memory. Check daemon boot logs or restart the service to load new modules.\n"@,
        unloaded_text(target, false) == "ERROR: Module '"@ + target
            + "' is not currently active\n"@,
{
}

/// A change of state reaches the first module that goes by the slug and no other one.
pub proof fn law_switch_changes_one_module<M: SecurityModule>(
    before: Seq<M>,
    after: Seq<M>,
    target: Seq<char>,
    state: bool,
    at: Option<usize>,
    k: int,
)
    requires
        toggled(before, after, target, state, at),
        0 <= k < before.len(),
    ensures
        after.len() == before.len(),
        after[k].id() == before[k].id(),
        after[k].title() == before[k].title(),
        before[k].id() == target && (forall|j: int|
            0 <= j < k ==> (#[trigger] before[j]).id() != target) ==> after[k].active() == state && at
            == Some(k as usize),
        before[k].id() != target ==> after[k].active() == before[k].active(),
        at is None <==> forall|j: int| 0 <= j < before.len() ==> (#[trigger] before[j]).id() != target,
{
    assert(after[k].id() == before[k].id());
    if let Some(i) = at {
        assert(before[i as int].id() == target);
    }
}

/// The reply to a change of state names the module; a change that was made says which, and one that
/// was not gives the error.
pub proof fn law_replies_name_the_module(target: Seq<char>, enable: bool, error: Seq<char>)
    ensures
        contains(success_text(target, enable), target),
        enable ==> contains(success_text(target, enable), "' has been ENABLED "@),
        !enable ==> contains(success_text(target, enable), "' has been DISABLED "@),
        contains(failure_text(target, error), target),
        contains(failure_text(target, error), error),
{
    reveal_strlit("' has been ");
    reveal_strlit("ENABLED");
    reveal_strlit("DISABLED");
    reveal_strlit("' has been ENABLED ");
    reveal_strlit("' has been DISABLED ");
    reveal_strlit(" via state_map synchronization\n");
    let head = "SUCCESS: Defense module '"@;
    let tail = " via state_map synchronization\n"@;
    let change = if enable {
        "ENABLED"@
    } else {
        "DISABLED"@
    };
    let said = if enable {
        "' has been ENABLED "@
    } else {
        "' has been DISABLED "@
    };
    let all = success_text(target, enable);
    assert(all =~= head + target + ("' has been "@ + change + tail));
    law_contains_means_a_part(all, target);
    assert(said =~= "' has been "@ + change + seq![' ']);
    assert(tail =~= seq![' '] + tail.drop_first());
    assert(all =~= (head + target) + said + tail.drop_first());
    law_contains_means_a_part(all, said);
    let fail = "ERROR: Failed to update kernel state for '"@;
    assert(failure_text(target, error) =~= fail + target + ("': "@ + error + "\n"@));
    law_contains_means_a_part(failure_text(target, error), target);
    assert(failure_text(target, error) =~= (fail + target + "': "@) + error + "\n"@);
    law_contains_means_a_part(failure_text(target, error), error);
}

/// The telemetry is polled in every turn but the one that leaves the loop, and never waits longer than
/// a twentieth of a second for a command, nor for more than eleven commands. A command that came is
/// always handled, and only a loop that can get no more commands is left.
pub proof fn law_telemetry_is_polled_soon(event: LoopEvent)
    ensures
        TICK_MS == 50,
        turn_of(event).poll || turn_of(event).stop,
        turn_of(event).stop <==> event is Disconnected,
        turn_of(event).handle <==> event is Command,
        turn_of(event).handle ==> 1 + turn_of(event).drain == 11,
        !turn_of(event).handle ==> turn_of(event).drain == 0,
{
}

} // verus!
