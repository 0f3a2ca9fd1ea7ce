//! Macros: named lists of commands for configured strips, and the events
//! that set them off.
use vstd::prelude::*;
use crate::commands::{command_spec, Commands};
use crate::config_utils::{Config, MacroConfig, StripConfig};

verus! {

/// A macro ready to run: each action is a strip's configuration and the
/// command to send to it.
#[derive(Clone, Debug)]
pub struct Macro {
    pub name: String,
    pub actions: Vec<(StripConfig, Commands)>,
}

/// An action of a macro configuration names a known controller and holds a
/// command text that reads as a command.
pub open spec fn action_buildable(
    controllers: Map<Seq<char>, StripConfig>,
    action: (String, String),
) -> bool {
    &&& controllers.contains_key(action.0@)
    &&& command_spec(action.1@) is Ok
}

/// Every action of the macro configuration can be built.
pub open spec fn macro_buildable(config: MacroConfig, controllers: Map<Seq<char>, StripConfig>) -> bool {
    forall|i: int|
        0 <= i < config.actions@.len() ==> action_buildable(controllers, #[trigger] config.actions@[i])
}

/// `m` is the macro built from `config`: the same name, and for each action
/// in turn the configuration of the controller it names and the command its
/// text reads as.
pub open spec fn built_from(
    m: Macro,
    config: MacroConfig,
    controllers: Map<Seq<char>, StripConfig>,
) -> bool {
    &&& m.name == config.name
    &&& m.actions@.len() == config.actions@.len()
    &&& forall|i: int|
        0 <= i < config.actions@.len() ==> {
            &&& (#[trigger] m.actions@[i]).0 == controllers[config.actions@[i].0@]
            &&& command_spec(config.actions@[i].1@) == Ok::<Commands, crate::commands::CommandError>(
                m.actions@[i].1,
            )
        }
}

impl Macro {
    /// Whether every action of `config` names a controller of `parent` and
    /// holds a valid command, which `new` needs.
    pub fn validate(config: &MacroConfig, parent: &Config) -> (ok: bool)
        ensures
            ok == macro_buildable(*config, parent.controllers@),
    {
        let mut i: usize = 0;
        while i < config.actions.len()
            invariant
                i <= config.actions@.len(),
                forall|j: int|
                    0 <= j < i ==> action_buildable(parent.controllers@, #[trigger] config.actions@[j]),
            decreases config.actions@.len() - i,
        {
            let action = &config.actions[i];
            if parent.controllers.get(&action.0).is_none() {
                assert(!action_buildable(parent.controllers@, config.actions@[i as int]));
                return false;
            }
            if Commands::parse(action.1.as_str()).is_err() {
                assert(!action_buildable(parent.controllers@, config.actions@[i as int]));
                return false;
            }
            i = i + 1;
        }
        true
    }

    /// Builds the macro that `config` describes, looking each controller up
    /// in `parent` and reading each command text.
    pub fn new(config: &MacroConfig, parent: &Config) -> (m: Macro)
        requires
            macro_buildable(*config, parent.controllers@),
        ensures
            built_from(m, *config, parent.controllers@),
    {
        let mut actions: Vec<(StripConfig, Commands)> = Vec::new();
        let mut i: usize = 0;
        while i < config.actions.len()
            invariant
                i <= config.actions@.len(),
                macro_buildable(*config, parent.controllers@),
                actions@.len() == i,
                forall|j: int|
                    0 <= j < i ==> {
                        &&& (#[trigger] actions@[j]).0 == parent.controllers@[config.actions@[j].0@]
                        &&& command_spec(config.actions@[j].1@) == Ok::<
                            Commands,
                            crate::commands::CommandError,
                        >(actions@[j].1)
                    },
            decreases config.actions@.len() - i,
        {
            let action = &config.actions[i];
            assert(action_buildable(parent.controllers@, config.actions@[i as int]));
            let target = parent.controllers.get(&action.0).unwrap().clone();
            let command = Commands::parse(action.1.as_str()).unwrap();
            actions.push((target, command));
            i = i + 1;
        }
        Macro { name: config.name.clone(), actions }
    }
}

/// Builds every macro of the configuration, in order.
pub fn macros_of(config: &Config) -> (built: Vec<Macro>)
    requires
        forall|i: int|
            0 <= i < config.macros@.len() ==> macro_buildable(
                #[trigger] config.macros@[i],
                config.controllers@,
            ),
    ensures
        built@.len() == config.macros@.len(),
        forall|i: int|
            0 <= i < config.macros@.len() ==> built_from(
                #[trigger] built@[i],
                config.macros@[i],
                config.controllers@,
            ),
{
    let mut built: Vec<Macro> = Vec::new();
    let mut i: usize = 0;
    while i < config.macros.len()
        invariant
            i <= config.macros@.len(),
            built@.len() == i,
            forall|j: int|
                0 <= j < config.macros@.len() ==> macro_buildable(
                    #[trigger] config.macros@[j],
                    config.controllers@,
                ),
            forall|j: int|
                0 <= j < i ==> built_from(
                    #[trigger] built@[j],
                    config.macros@[j],
                    config.controllers@,
                ),
        decreases config.macros@.len() - i,
    {
        built.push(Macro::new(&config.macros[i], config));
        i = i + 1;
    }
    built
}

/// What sets a macro off: a cron schedule, given by its expression, or the
/// start or the end of the program.
#[derive(Clone, Debug)]
pub enum EventTriggers {
    Cron(String),
    Startup,
    Shutdown,
}

/// A macro together with what sets it off.
#[derive(Clone, Debug)]
pub struct Event {
    pub name: String,
    pub trigger: EventTriggers,
    pub action: Macro,
}

/// What `cron` makes of a schedule expression at a moment given in whole
/// seconds since the Unix epoch, in UTC: `None` when the expression is not a
/// schedule or the moment is out of range, else whether the schedule
/// includes the moment.
pub uninterp spec fn cron_includes(expression: Seq<char>, unix_seconds: i64) -> Option<bool>;

/// Parses `expression` with `cron::Schedule::from_str` and asks the schedule
/// whether it includes the UTC moment that `chrono::DateTime::from_timestamp`
/// makes of `unix_seconds`. The contract claims only that the outcome is a
/// function of the two arguments, named `cron_includes`; what the schedule
/// grammar accepts and which moments it includes is left to `cron`.
#[verifier::external_body]
fn schedule_includes(expression: &str, unix_seconds: i64) -> (verdict: Option<bool>)
    ensures
        verdict == cron_includes(expression@, unix_seconds),
{
    let schedule = <cron::Schedule as std::str::FromStr>::from_str(expression).ok()?;
    let moment = chrono::DateTime::from_timestamp(unix_seconds, 0)?;
    Some(schedule.includes(moment))
}

/// A trigger fires when it is a cron schedule and the schedule includes the
/// moment.
pub open spec fn fires(trigger: EventTriggers, verdict: Option<bool>) -> bool {
    trigger is Cron && verdict == Some(true)
}

/// Whether `trigger` fires, given what its schedule says of the moment;
/// start and end events are not dispatched by time.
pub fn trigger_fires(trigger: &EventTriggers, verdict: Option<bool>) -> (fire: bool)
    ensures
        fire == fires(*trigger, verdict),
{
    match trigger {
        EventTriggers::Cron(_) => match verdict {
            Some(b) => b,
            None => false,
        },
        _ => false,
    }
}

/// What the schedule of a trigger says of a moment.
pub open spec fn verdict_of(trigger: EventTriggers, unix_seconds: i64) -> Option<bool> {
    match trigger {
        EventTriggers::Cron(expression) => cron_includes(expression@, unix_seconds),
        _ => None,
    }
}

/// The positions of the events that fire at the moment, in order.
pub open spec fn due_spec(events: Seq<Event>, unix_seconds: i64) -> Seq<usize>
    decreases events.len(),
{
    if events.len() == 0 {
        Seq::empty()
    } else {
        let rest = due_spec(events.drop_last(), unix_seconds);
        let last = events.last();
        if fires(last.trigger, verdict_of(last.trigger, unix_seconds)) {
            rest.push((events.len() - 1) as usize)
        } else {
            rest
        }
    }
}

/// The events to run at the moment `unix_seconds`: those whose cron
/// schedule includes it, by position and in order.
pub fn due_events(events: &Vec<Event>, unix_seconds: i64) -> (due: Vec<usize>)
    ensures
        due@ == due_spec(events@, unix_seconds),
        forall|k: int|
            #![trigger events@[k]]
            0 <= k < events@.len() ==> (due@.contains(k as usize) <==> (events@[k].trigger matches EventTriggers::Cron(
                e,
            ) && cron_includes(e@, unix_seconds) == Some(true))),
        forall|j: int| 0 <= j < due@.len() ==> #[trigger] due@[j] < events@.len(),
{
    let mut due: Vec<usize> = Vec::new();
    let mut i: usize = 0;
    while i < events.len()
        invariant
            i <= events@.len(),
            due@ == due_spec(events@.take(i as int), unix_seconds),
        decreases events@.len() - i,
    {
        let trigger = &events[i].trigger;
        let verdict = match trigger {
            EventTriggers::Cron(expression) => schedule_includes(expression.as_str(), unix_seconds),
            _ => None,
        };
        proof {
            assert(events@.take(i + 1).drop_last() =~= events@.take(i as int));
            assert(events@.take(i + 1).last() == events@[i as int]);
        }
        if trigger_fires(trigger, verdict) {
            due.push(i);
        }
        i = i + 1;
    }
    assert(events@.take(events@.len() as int) =~= events@);
    proof {
        law_due_events_follow_the_schedule(events@, unix_seconds);
    }
    due
}


/// The events due at a moment are listed once each, in increasing order of
/// position, and each is a cron event whose schedule includes the moment;
/// every such event is listed.
pub proof fn law_due_events_are_exactly_the_firing_ones(events: Seq<Event>, unix_seconds: i64)
    requires
        events.len() <= usize::MAX,
    ensures
        forall|j: int|
            0 <= j < due_spec(events, unix_seconds).len() ==> {
                let k = #[trigger] due_spec(events, unix_seconds)[j];
                &&& k < events.len()
                &&& fires(events[k as int].trigger, verdict_of(events[k as int].trigger, unix_seconds))
            },
        forall|a: int, b: int|
            0 <= a < b < due_spec(events, unix_seconds).len() ==> #[trigger] due_spec(
                events,
                unix_seconds,
            )[a] < #[trigger] due_spec(events, unix_seconds)[b],
        forall|k: int|
            0 <= k < events.len() && fires(events[k].trigger, verdict_of(events[k].trigger, unix_seconds))
                ==> due_spec(events, unix_seconds).contains(k as usize),
    decreases events.len(),
{
    if events.len() > 0 {
        let prefix = events.drop_last();
        law_due_events_are_exactly_the_firing_ones(prefix, unix_seconds);
        let rest = due_spec(prefix, unix_seconds);
        let d = due_spec(events, unix_seconds);
        let n = events.len() - 1;
        let last_fires = fires(events.last().trigger, verdict_of(events.last().trigger, unix_seconds));
        assert(forall|k: int| 0 <= k < prefix.len() ==> prefix[k] == events[k]);
        if last_fires {
            assert(d == rest.push(n as usize));
        } else {
            assert(d == rest);
        }
        assert forall|j: int| 0 <= j < d.len() implies {
            let k = #[trigger] d[j];
            &&& k < events.len()
            &&& fires(events[k as int].trigger, verdict_of(events[k as int].trigger, unix_seconds))
        } by {
            if j < rest.len() {
                assert(d[j] == rest[j]);
            }
        }
        assert forall|a: int, b: int| 0 <= a < b < d.len() implies #[trigger] d[a] < #[trigger] d[b] by {
            if b < rest.len() {
                assert(d[a] == rest[a] && d[b] == rest[b]);
            } else {
                assert(d[a] == rest[a]);
                assert(rest[a] < prefix.len());
            }
        }
        assert forall|k: int|
            0 <= k < events.len() && fires(events[k].trigger, verdict_of(events[k].trigger, unix_seconds))
            implies d.contains(k as usize) by {
            if k < n {
                assert(prefix[k] == events[k]);
                assert(rest.contains(k as usize));
                let w = choose|w: int| 0 <= w < rest.len() && rest[w] == k as usize;
                assert(d[w] == k as usize);
            } else {
                assert(d[d.len() - 1] == k as usize);
            }
        }
    }
}

/// An event is due at a moment exactly when it is a cron event whose
/// schedule, asked about that very moment, includes it; every due position
/// is the position of an event.
pub proof fn law_due_events_follow_the_schedule(events: Seq<Event>, unix_seconds: i64)
    requires
        events.len() <= usize::MAX,
    ensures
        forall|k: int|
            #![trigger events[k]]
            0 <= k < events.len() ==> (due_spec(events, unix_seconds).contains(k as usize) <==> (
            events[k].trigger matches EventTriggers::Cron(e) && cron_includes(e@, unix_seconds)
                == Some(true))),
        forall|j: int|
            0 <= j < due_spec(events, unix_seconds).len() ==> #[trigger] due_spec(
                events,
                unix_seconds,
            )[j] < events.len(),
{
    law_due_events_are_exactly_the_firing_ones(events, unix_seconds);
    let d = due_spec(events, unix_seconds);
    assert forall|k: int| #![trigger events[k]] 0 <= k < events.len() implies (d.contains(k as usize) <==> (
    events[k].trigger matches EventTriggers::Cron(e) && cron_includes(e@, unix_seconds) == Some(
        true,
    ))) by {
        if d.contains(k as usize) {
            let j = choose|j: int| 0 <= j < d.len() && d[j] == k as usize;
            assert(d[j] < events.len());
            assert(d[j] as int == k);
        }
    }
}

} // verus!
