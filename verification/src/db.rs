//! The rows of the controller database and how macros are put together
//! from them: each macro with its actions, each action with its controller.
use vstd::prelude::*;

verus! {

/// A row of the `controllers` table; `name` is its key.
#[derive(Debug)]
pub struct Controller {
    pub name: String,
    pub friendly_name: String,
    pub ip: String,
    pub port: i32,
    pub is_rgbw: bool,
}

impl Clone for Controller {
    fn clone(&self) -> (copy: Self)
        ensures
            copy == *self,
    {
        Controller {
            name: self.name.clone(),
            friendly_name: self.friendly_name.clone(),
            ip: self.ip.clone(),
            port: self.port,
            is_rgbw: self.is_rgbw,
        }
    }
}

/// A row of the `macros` table.
#[derive(Debug)]
pub struct Macro {
    pub id: i32,
    pub name: String,
}

/// A row of the `actions` table: a command for the controller named
/// `controller_name`, belonging to the macro `macro_id`.
#[derive(Debug)]
pub struct Action {
    pub id: i32,
    pub controller_name: String,
    pub command: String,
    pub macro_id: i32,
}

/// An action together with the controller it addresses.
#[derive(Debug)]
pub struct LoadedAction {
    pub id: i32,
    pub controller: Controller,
    pub command: String,
}

/// A macro together with its actions.
#[derive(Debug)]
pub struct LoadedMacro {
    pub id: i32,
    pub name: String,
    pub actions: Vec<LoadedAction>,
}

/// The actions that belong to the macro `macro_id`, in table order.
pub open spec fn belonging_to(actions: Seq<Action>, macro_id: i32) -> Seq<Action>
    decreases actions.len(),
{
    if actions.len() == 0 {
        Seq::empty()
    } else {
        let rest = belonging_to(actions.drop_last(), macro_id);
        if actions.last().macro_id == macro_id {
            rest.push(actions.last())
        } else {
            rest
        }
    }
}

/// The position of the first controller named `name` at or after `from`,
/// or the number of controllers if there is none.
pub open spec fn controller_index(controllers: Seq<Controller>, name: Seq<char>, from: int) -> int
    decreases controllers.len() - from,
{
    if from >= controllers.len() {
        controllers.len() as int
    } else if controllers[from].name@ == name {
        from
    } else {
        controller_index(controllers, name, from + 1)
    }
}

/// Whether some controller is named `name`.
pub open spec fn has_controller(controllers: Seq<Controller>, name: Seq<char>) -> bool {
    controller_index(controllers, name, 0) < controllers.len()
}

/// The first controller named `name`.
pub open spec fn controller_named(controllers: Seq<Controller>, name: Seq<char>) -> Controller {
    controllers[controller_index(controllers, name, 0)]
}

/// Every action of every listed macro names a known controller.
pub open spec fn controllers_known(
    macros: Seq<Macro>,
    actions: Seq<Action>,
    controllers: Seq<Controller>,
) -> bool {
    forall|i: int, j: int|
        0 <= i < macros.len() && 0 <= j < belonging_to(actions, macros[i].id).len()
            ==> has_controller(
            controllers,
            #[trigger] belonging_to(actions, macros[i].id)[j].controller_name@,
        )
}

/// A loaded action is the action with the controller it names.
pub open spec fn loaded_from(loaded: LoadedAction, action: Action, controllers: Seq<Controller>) -> bool {
    &&& loaded.id == action.id
    &&& loaded.command == action.command
    &&& loaded.controller == controller_named(controllers, action.controller_name@)
}

/// A loaded macro is the macro with all its actions, each loaded.
pub open spec fn macro_loaded_from(
    loaded: LoadedMacro,
    row: Macro,
    actions: Seq<Action>,
    controllers: Seq<Controller>,
) -> bool {
    let own = belonging_to(actions, row.id);
    &&& loaded.id == row.id
    &&& loaded.name == row.name
    &&& loaded.actions@.len() == own.len()
    &&& forall|j: int|
        0 <= j < own.len() ==> loaded_from(#[trigger] loaded.actions@[j], own[j], controllers)
}

proof fn lemma_controller_index_bounds(controllers: Seq<Controller>, name: Seq<char>, from: int)
    requires
        0 <= from <= controllers.len(),
    ensures
        from <= controller_index(controllers, name, from) <= controllers.len(),
    decreases controllers.len() - from,
{
    if from < controllers.len() && controllers[from].name@ != name {
        lemma_controller_index_bounds(controllers, name, from + 1);
    }
}

/// The position of the first controller named `name`, or the number of
/// controllers.
fn find_controller(controllers: &Vec<Controller>, name: &String) -> (i: usize)
    ensures
        i == controller_index(controllers@, name@, 0),
{
    proof {
        lemma_controller_index_bounds(controllers@, name@, 0);
    }
    let mut i: usize = 0;
    while i < controllers.len()
        invariant
            i <= controllers@.len(),
            controller_index(controllers@, name@, 0) == controller_index(controllers@, name@, i as int),
        decreases controllers@.len() - i,
    {
        if controllers[i].name == *name {
            return i;
        }
        i = i + 1;
    }
    i
}

/// Whether every action of every listed macro names a known controller,
/// which `load_macros` needs.
pub fn all_controllers_known(
    macros: &Vec<Macro>,
    actions: &Vec<Action>,
    controllers: &Vec<Controller>,
) -> (known: bool)
    ensures
        known == controllers_known(macros@, actions@, controllers@),
{
    let mut i: usize = 0;
    while i < macros.len()
        invariant
            i <= macros@.len(),
            forall|m: int, j: int|
                0 <= m < i && 0 <= j < belonging_to(actions@, macros@[m].id).len() ==> has_controller(
                    controllers@,
                    #[trigger] belonging_to(actions@, macros@[m].id)[j].controller_name@,
                ),
        decreases macros@.len() - i,
    {
        let id = macros[i].id;
        let mut k: usize = 0;
        while k < actions.len()
            invariant
                i < macros@.len(),
                id == macros@[i as int].id,
                k <= actions@.len(),
                forall|j: int|
                    0 <= j < belonging_to(actions@.take(k as int), id).len() ==> has_controller(
                        controllers@,
                        #[trigger] belonging_to(actions@.take(k as int), id)[j].controller_name@,
                    ),
            decreases actions@.len() - k,
        {
            let ghost prev = belonging_to(actions@.take(k as int), id);
            assert(actions@.take(k + 1).drop_last() =~= actions@.take(k as int));
            if actions[k].macro_id == id {
                let found = find_controller(controllers, &actions[k].controller_name);
                if found == controllers.len() {
                    proof {
                        let own = belonging_to(actions@, id);
                        lemma_belonging_prefix(actions@, id, k as int + 1);
                        let here = belonging_to(actions@.take(k + 1), id);
                        assert(here[here.len() - 1] == actions@[k as int]);
                        assert(own[here.len() - 1] == actions@[k as int]);
                        assert(!has_controller(controllers@, own[here.len() - 1].controller_name@));
                    }
                    return false;
                }
                proof {
                    lemma_controller_index_bounds(controllers@, actions@[k as int].controller_name@, 0);
                }
                assert(has_controller(controllers@, actions@[k as int].controller_name@));
            }
            proof {
                let next = belonging_to(actions@.take(k + 1), id);
                assert(actions@.take(k + 1).last() == actions@[k as int]);
                if actions@[k as int].macro_id == id {
                    assert(next == prev.push(actions@[k as int]));
                } else {
                    assert(next == prev);
                }
            }
            k = k + 1;
        }
        assert(actions@.take(actions@.len() as int) =~= actions@);
        i = i + 1;
    }
    true
}

/// The actions of a prefix of the table are a prefix of the actions of the
/// whole table.
proof fn lemma_belonging_prefix(actions: Seq<Action>, id: i32, k: int)
    requires
        0 <= k <= actions.len(),
    ensures
        belonging_to(actions.take(k), id).len() <= belonging_to(actions, id).len(),
        forall|j: int|
            0 <= j < belonging_to(actions.take(k), id).len() ==> #[trigger] belonging_to(
                actions.take(k),
                id,
            )[j] == belonging_to(actions, id)[j],
    decreases actions.len() - k,
{
    if k < actions.len() {
        lemma_belonging_prefix(actions, id, k + 1);
        assert(actions.take(k + 1).drop_last() =~= actions.take(k));
        let a = belonging_to(actions.take(k), id);
        let b = belonging_to(actions.take(k + 1), id);
        assert(a.len() <= b.len());
        assert(forall|j: int| 0 <= j < a.len() ==> a[j] == b[j]);
    } else {
        assert(actions.take(k) =~= actions);
    }
}

/// Puts each macro together with its actions, and each action with the
/// first controller of the name it gives, keeping the order of the tables.
pub fn load_macros(
    macros: &Vec<Macro>,
    actions: &Vec<Action>,
    controllers: &Vec<Controller>,
) -> (loaded: Vec<LoadedMacro>)
    requires
        controllers_known(macros@, actions@, controllers@),
    ensures
        loaded@.len() == macros@.len(),
        forall|i: int|
            0 <= i < macros@.len() ==> macro_loaded_from(
                #[trigger] loaded@[i],
                macros@[i],
                actions@,
                controllers@,
            ),
{
    let mut loaded: Vec<LoadedMacro> = Vec::new();
    let mut i: usize = 0;
    while i < macros.len()
        invariant
            i <= macros@.len(),
            loaded@.len() == i,
            controllers_known(macros@, actions@, controllers@),
            forall|m: int|
                0 <= m < i ==> macro_loaded_from(
                    #[trigger] loaded@[m],
                    macros@[m],
                    actions@,
                    controllers@,
                ),
        decreases macros@.len() - i,
    {
        let id = macros[i].id;
        let mut own: Vec<LoadedAction> = Vec::new();
        let mut k: usize = 0;
        while k < actions.len()
            invariant
                i < macros@.len(),
                id == macros@[i as int].id,
                k <= actions@.len(),
                controllers_known(macros@, actions@, controllers@),
                own@.len() == belonging_to(actions@.take(k as int), id).len(),
                forall|j: int|
                    0 <= j < own@.len() ==> loaded_from(
                        #[trigger] own@[j],
                        belonging_to(actions@.take(k as int), id)[j],
                        controllers@,
                    ),
            decreases actions@.len() - k,
        {
            assert(actions@.take(k + 1).drop_last() =~= actions@.take(k as int));
            if actions[k].macro_id == id {
                let action = &actions[k];
                proof {
                    lemma_belonging_prefix(actions@, id, k as int + 1);
                    let here = belonging_to(actions@.take(k + 1), id);
                    assert(here[here.len() - 1] == actions@[k as int]);
                    assert(belonging_to(actions@, id)[here.len() - 1] == actions@[k as int]);
                    assert(has_controller(controllers@, belonging_to(actions@, id)[here.len() - 1].controller_name@));
                    lemma_controller_index_bounds(controllers@, action.controller_name@, 0);
                }
                let c = find_controller(controllers, &action.controller_name);
                own.push(
                    LoadedAction {
                        id: action.id,
                        controller: controllers[c].clone(),
                        command: action.command.clone(),
                    },
                );
            }
            proof {
                let prev = belonging_to(actions@.take(k as int), id);
                let next = belonging_to(actions@.take(k + 1), id);
                assert(actions@.take(k + 1).last() == actions@[k as int]);
                if actions@[k as int].macro_id == id {
                    assert(next == prev.push(actions@[k as int]));
                } else {
                    assert(next == prev);
                }
            }
            k = k + 1;
        }
        assert(actions@.take(actions@.len() as int) =~= actions@);
        loaded.push(LoadedMacro { id, name: macros[i].name.clone(), actions: own });
        i = i + 1;
    }
    loaded
}


/// The first controller of a name that some controller has carries that
/// name.
proof fn lemma_controller_index_found(controllers: Seq<Controller>, name: Seq<char>, from: int)
    requires
        0 <= from <= controllers.len(),
        controller_index(controllers, name, from) < controllers.len(),
    ensures
        controllers[controller_index(controllers, name, from)].name@ == name,
    decreases controllers.len() - from,
{
    if from < controllers.len() && controllers[from].name@ != name {
        lemma_controller_index_found(controllers, name, from + 1);
    }
}

/// Every action of a loaded macro carries the controller that its row
/// names, and belongs to that macro.
pub proof fn law_loaded_actions_match(
    macros: Seq<Macro>,
    actions: Seq<Action>,
    controllers: Seq<Controller>,
    loaded: Seq<LoadedMacro>,
    i: int,
    j: int,
)
    requires
        controllers_known(macros, actions, controllers),
        loaded.len() == macros.len(),
        forall|m: int|
            0 <= m < macros.len() ==> macro_loaded_from(
                #[trigger] loaded[m],
                macros[m],
                actions,
                controllers,
            ),
        0 <= i < macros.len(),
        0 <= j < loaded[i].actions@.len(),
    ensures
        loaded[i].actions@[j].controller.name@ == belonging_to(actions, macros[i].id)[j].controller_name@,
        belonging_to(actions, macros[i].id)[j].macro_id == macros[i].id,
{
    let own = belonging_to(actions, macros[i].id);
    assert(macro_loaded_from(loaded[i], macros[i], actions, controllers));
    assert(loaded_from(loaded[i].actions@[j], own[j], controllers));
    assert(has_controller(controllers, own[j].controller_name@));
    lemma_controller_index_found(controllers, own[j].controller_name@, 0);
    lemma_belonging_members(actions, macros[i].id);
}

/// The actions that belong to a macro carry its id.
proof fn lemma_belonging_members(actions: Seq<Action>, id: i32)
    ensures
        forall|j: int|
            0 <= j < belonging_to(actions, id).len() ==> #[trigger] belonging_to(actions, id)[j].macro_id
                == id,
    decreases actions.len(),
{
    if actions.len() > 0 {
        lemma_belonging_members(actions.drop_last(), id);
        let rest = belonging_to(actions.drop_last(), id);
        let all = belonging_to(actions, id);
        if actions.last().macro_id == id {
            assert(all == rest.push(actions.last()));
        } else {
            assert(all == rest);
        }
        assert(forall|j: int| 0 <= j < rest.len() ==> all[j] == rest[j]);
    }
}

} // verus!
