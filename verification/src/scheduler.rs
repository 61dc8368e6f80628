//! The cron task scheduler: requests from plugins to schedule or cancel a
//! task, the list of scheduled tasks, and which of them fire at a time.
use vstd::prelude::*;
use crate::cron::{cron_matches, cron_spec, CronExpr, CronSpec};
use crate::json::{get_str_or, is_str_object, member_str, JsonValue};
use crate::text::str_eq;

verus! {

/// A task that fires whenever its cron expression matches.
pub struct ScheduledTask {
    pub name: String,
    pub cron: CronExpr,
    pub cron_raw: String,
    pub payload: String,
}

/// A scheduled task seen as plain values.
pub struct TaskView {
    pub name: Seq<char>,
    pub cron: CronSpec,
    pub cron_raw: Seq<char>,
    pub payload: Seq<char>,
}

impl View for ScheduledTask {
    type V = TaskView;

    open spec fn view(&self) -> TaskView {
        TaskView {
            name: self.name@,
            cron: self.cron@,
            cron_raw: self.cron_raw@,
            payload: self.payload@,
        }
    }
}

impl ScheduledTask {
    /// The cron expression as it was written.
    pub fn cron_str(&self) -> (r: &str)
        ensures
            r@ == self.cron_raw@,
    {
        self.cron_raw.as_str()
    }
}

/// What a request on the task topic asks for.
pub enum TaskRequest {
    /// Schedule the task.
    Schedule(ScheduledTask),
    /// Remove the tasks of this name.
    Cancel(String),
    /// A `schedule` whose cron expression does not parse.
    InvalidCron(String),
    /// A `cancel` without a task name.
    MissingName,
    /// A `tick`, which the scheduler itself sends; nothing to do.
    Tick,
    /// Any other action.
    UnknownAction(String),
}

/// The text of the member `key`, or `default` when it is not a string.
pub open spec fn text_member(req: JsonValue, key: Seq<char>, default: Seq<char>) -> Seq<char> {
    match member_str(req, key) {
        Some(s) => s,
        None => default,
    }
}

/// What a task request asks for: its `action` decides.
pub open spec fn task_request_read(req: JsonValue, r: TaskRequest) -> bool {
    let action = text_member(req, "action"@, "unknown"@);
    if action == "schedule"@ {
        let name = text_member(req, "task_name"@, "unnamed"@);
        let raw = text_member(req, "cron"@, Seq::empty());
        let payload = text_member(req, "payload"@, Seq::empty());
        match cron_spec(raw) {
            Some(c) => r matches TaskRequest::Schedule(t) && t@ == TaskView {
                name,
                cron: c,
                cron_raw: raw,
                payload,
            },
            None => r matches TaskRequest::InvalidCron(s) && s@ == raw,
        }
    } else if action == "cancel"@ {
        let name = text_member(req, "task_name"@, Seq::empty());
        if name.len() == 0 {
            r is MissingName
        } else {
            r matches TaskRequest::Cancel(n) && n@ == name
        }
    } else if action == "tick"@ {
        r is Tick
    } else {
        r matches TaskRequest::UnknownAction(a) && a@ == action
    }
}

/// Reads a request from the task topic.
pub fn handle_task(req: &JsonValue) -> (r: TaskRequest)
    ensures
        task_request_read(*req, r),
{
    proof {
        reveal_strlit("");
    }
    let action = get_str_or(req, "action", "unknown");
    assert(action@ == text_member(*req, "action"@, "unknown"@));
    if str_eq(action.as_str(), "schedule") {
        let name = get_str_or(req, "task_name", "unnamed");
        let cron_raw = get_str_or(req, "cron", "");
        let payload = get_str_or(req, "payload", "");
        assert(cron_raw@ == text_member(*req, "cron"@, Seq::empty()));
        assert(payload@ == text_member(*req, "payload"@, Seq::empty()));
        match CronExpr::parse(cron_raw.as_str()) {
            Some(cron) => {
                let t = ScheduledTask { name, cron, cron_raw, payload };
                assert(t@.cron == cron_spec(t@.cron_raw)->0);
                TaskRequest::Schedule(t)
            },
            None => TaskRequest::InvalidCron(cron_raw),
        }
    } else if str_eq(action.as_str(), "cancel") {
        let name = get_str_or(req, "task_name", "");
        assert(name@ == text_member(*req, "task_name"@, Seq::empty()));
        if name.as_str().is_empty() {
            TaskRequest::MissingName
        } else {
            TaskRequest::Cancel(name)
        }
    } else if str_eq(action.as_str(), "tick") {
        TaskRequest::Tick
    } else {
        TaskRequest::UnknownAction(action)
    }
}

// ───────────────────────── the task list ─────────────────────────

/// The tasks that are not named `name`, in order.
pub open spec fn without_name(tasks: Seq<TaskView>, name: Seq<char>) -> Seq<TaskView>
    decreases tasks.len(),
{
    if tasks.len() == 0 {
        Seq::empty()
    } else {
        let rest = without_name(tasks.drop_last(), name);
        if tasks.last().name == name {
            rest
        } else {
            rest.push(tasks.last())
        }
    }
}

/// Whether some task is named `name`.
pub open spec fn has_name(tasks: Seq<TaskView>, name: Seq<char>) -> bool {
    exists|i: int| 0 <= i < tasks.len() && (#[trigger] tasks[i]).name == name
}

/// The name and payload of each task that fires at the given time, in order.
pub open spec fn fired(
    tasks: Seq<TaskView>,
    sec: u32,
    min: u32,
    hour: u32,
    day: u32,
    month: u32,
    weekday: u32,
    year: i32,
) -> Seq<(Seq<char>, Seq<char>)>
    decreases tasks.len(),
{
    if tasks.len() == 0 {
        Seq::empty()
    } else {
        let rest = fired(tasks.drop_last(), sec, min, hour, day, month, weekday, year);
        let t = tasks.last();
        if cron_matches(t.cron, sec, min, hour, day, month, weekday, year) {
            rest.push((t.name, t.payload))
        } else {
            rest
        }
    }
}

/// The plain view of each task.
pub open spec fn task_views(tasks: Seq<ScheduledTask>) -> Seq<TaskView> {
    tasks.map_values(|t: ScheduledTask| t@)
}

/// The scheduled tasks, in the order they were added.
pub struct Scheduler {
    tasks: Vec<ScheduledTask>,
}

impl View for Scheduler {
    type V = Seq<TaskView>;

    closed spec fn view(&self) -> Seq<TaskView> {
        task_views(self.tasks@)
    }
}

impl Scheduler {
    /// No tasks.
    pub fn new() -> (s: Scheduler)
        ensures
            s@ == Seq::<TaskView>::empty(),
    {
        let s = Scheduler { tasks: Vec::new() };
        assert(s@ =~= Seq::<TaskView>::empty());
        s
    }

    /// The number of scheduled tasks.
    pub fn len(&self) -> (n: usize)
        ensures
            n == self@.len(),
    {
        self.tasks.len()
    }

    /// Adds a task after the others.
    pub fn add(&mut self, task: ScheduledTask)
        ensures
            final(self)@ == old(self)@.push(task@),
    {
        self.tasks.push(task);
        assert(self@ =~= old(self)@.push(task@));
    }

    /// Removes every task named `name`, keeping the others in order; says
    /// whether any was removed.
    pub fn cancel(&mut self, name: &str) -> (removed: bool)
        ensures
            final(self)@ == without_name(old(self)@, name@),
            removed == has_name(old(self)@, name@),
    {
        let ghost all = self@;
        let mut rest: Vec<ScheduledTask> = Vec::new();
        std::mem::swap(&mut rest, &mut self.tasks);
        assert(task_views(rest@) == all);
        let mut kept: Vec<ScheduledTask> = Vec::new();
        let mut removed = false;
        let ghost n = rest.len();
        let mut i: usize = 0;
        assert(all.take(0) =~= Seq::<TaskView>::empty());
        assert(task_views(kept@) =~= without_name(all.take(0), name@));
        while rest.len() > 0
            invariant
                i + rest@.len() == n,
                n == all.len(),
                n <= usize::MAX,
                task_views(rest@) == all.skip(i as int),
                task_views(kept@) == without_name(all.take(i as int), name@),
                removed == has_name(all.take(i as int), name@),
            decreases rest.len(),
        {
            let ghost before = rest@;
            let t = rest.remove(0);
            assert(t@ == task_views(before)[0]);
            assert(t@ == all[i as int]);
            assert(all.take(i + 1).drop_last() =~= all.take(i as int));
            assert(all.take(i + 1).last() == all[i as int]);
            let ghost kept_before = kept@;
            if str_eq(t.name.as_str(), name) {
                removed = true;
                assert(all.take(i + 1)[i as int].name == name@);
            } else {
                kept.push(t);
                assert(task_views(kept@) =~= task_views(kept_before).push(all[i as int]));
                assert(removed == has_name(all.take(i + 1), name@)) by {
                    if has_name(all.take(i + 1), name@) {
                        let k = choose|k: int| 0 <= k < i + 1 && (#[trigger] all.take(i + 1)[k]).name
                            == name@;
                        assert(all.take(i as int)[k] == all.take(i + 1)[k]);
                    }
                }
            }
            assert forall|k: int| 0 <= k < rest@.len() implies #[trigger] task_views(rest@)[k] == all.skip(i + 1)[k] by {
                assert(rest@[k] == before[k + 1]);
                assert(task_views(before)[k + 1] == all.skip(i as int)[k + 1]);
            }
            assert(task_views(rest@) =~= all.skip(i + 1));
            i = i + 1;
        }
        assert(all.take(i as int) =~= all);
        self.tasks = kept;
        assert(self@ == without_name(all, name@));
        removed
    }

    /// The name and payload of each task that fires at the given time
    /// (`weekday` counts from Sunday = 0), in the order the tasks were added.
    pub fn due(
        &self,
        sec: u32,
        min: u32,
        hour: u32,
        day: u32,
        month: u32,
        weekday: u32,
        year: i32,
    ) -> (r: Vec<(String, String)>)
        ensures
            r@.map_values(|p: (String, String)| (p.0@, p.1@)) == fired(
                self@,
                sec,
                min,
                hour,
                day,
                month,
                weekday,
                year,
            ),
    {
        let ghost all = self@;
        let mut out: Vec<(String, String)> = Vec::new();
        let mut i: usize = 0;
        assert(all.take(0) =~= Seq::<TaskView>::empty());
        assert(out@.map_values(|p: (String, String)| (p.0@, p.1@)) =~= fired(
            all.take(0),
            sec,
            min,
            hour,
            day,
            month,
            weekday,
            year,
        ));
        while i < self.tasks.len()
            invariant
                i <= self.tasks@.len(),
                all == self@,
                out@.map_values(|p: (String, String)| (p.0@, p.1@)) == fired(
                    all.take(i as int),
                    sec,
                    min,
                    hour,
                    day,
                    month,
                    weekday,
                    year,
                ),
            decreases self.tasks.len() - i,
        {
            let t = &self.tasks[i];
            assert(t@ == all[i as int]);
            assert(all.take(i + 1).drop_last() =~= all.take(i as int));
            assert(all.take(i + 1).last() == all[i as int]);
            let ghost before = out@;
            if t.cron.matches(sec, min, hour, day, month, weekday, year) {
                out.push((t.name.clone(), t.payload.clone()));
                assert(out@.map_values(|p: (String, String)| (p.0@, p.1@)) =~= before.map_values(
                    |p: (String, String)| (p.0@, p.1@),
                ).push((all[i as int].name, all[i as int].payload)));
            }
            i = i + 1;
        }
        assert(all.take(i as int) =~= all);
        out
    }
}

/// The event published when a task fires:
/// `{"event": "tick", "task_name": name, "payload": payload}`.
pub fn tick_event(name: &str, payload: &str) -> (r: JsonValue)
    ensures
        is_str_object(r, seq![("event"@, "tick"@), ("task_name"@, name@), ("payload"@, payload@)]),
{
    let mut entries: Vec<(String, JsonValue)> = Vec::new();
    entries.push(("event".to_owned(), JsonValue::Str("tick".to_owned())));
    entries.push(("task_name".to_owned(), JsonValue::Str(name.to_owned())));
    entries.push(("payload".to_owned(), JsonValue::Str(payload.to_owned())));
    let r = JsonValue::Object(entries);
    assert(is_str_object(r, seq![("event"@, "tick"@), ("task_name"@, name@), ("payload"@, payload@)]));
    r
}

// ───────────────────────── laws ─────────────────────────

/// Cancelling keeps exactly the tasks of other names.
pub proof fn lemma_without_name_contains(tasks: Seq<TaskView>, name: Seq<char>, t: TaskView)
    ensures
        without_name(tasks, name).contains(t) <==> (tasks.contains(t) && t.name != name),
    decreases tasks.len(),
{
    broadcast use vstd::seq_lib::lemma_seq_contains_after_push;
    if tasks.len() == 0 {
        assert(!without_name(tasks, name).contains(t));
    } else {
        let init = tasks.drop_last();
        lemma_without_name_contains(init, name, t);
        assert(init.push(tasks.last()) =~= tasks);
    }
}

/// After cancelling a name, no task of that name is left, and every task of
/// another name is still there.
pub proof fn law_cancel_removes_only_that_name(tasks: Seq<TaskView>, name: Seq<char>)
    ensures
        !has_name(without_name(tasks, name), name),
        forall|t: TaskView| #[trigger] without_name(tasks, name).contains(t) <==> (tasks.contains(t)
            && t.name != name),
{
    assert forall|t: TaskView| #[trigger] without_name(tasks, name).contains(t) <==> (tasks.contains(t)
        && t.name != name) by {
        lemma_without_name_contains(tasks, name, t);
    }
    if has_name(without_name(tasks, name), name) {
        let w = without_name(tasks, name);
        let k = choose|k: int| 0 <= k < w.len() && (#[trigger] w[k]).name == name;
        assert(w.contains(w[k]));
    }
}

/// Cancelling a name a second time removes nothing.
pub proof fn law_cancel_twice(tasks: Seq<TaskView>, name: Seq<char>)
    ensures
        without_name(without_name(tasks, name), name) == without_name(tasks, name),
        !has_name(without_name(tasks, name), name),
{
    law_cancel_removes_only_that_name(tasks, name);
    lemma_without_absent(without_name(tasks, name), name);
}

/// Without a task of that name, cancelling changes nothing.
pub proof fn lemma_without_absent(tasks: Seq<TaskView>, name: Seq<char>)
    requires
        !has_name(tasks, name),
    ensures
        without_name(tasks, name) == tasks,
    decreases tasks.len(),
{
    if tasks.len() > 0 {
        assert(!has_name(tasks.drop_last(), name)) by {
            if has_name(tasks.drop_last(), name) {
                let k = choose|k: int| 0 <= k < tasks.drop_last().len() && (#[trigger] tasks.drop_last()[k]).name == name;
                assert(tasks[k].name == name);
            }
        }
        lemma_without_absent(tasks.drop_last(), name);
        assert(tasks.last().name != name) by {
            assert(tasks[tasks.len() - 1].name != name);
        }
        assert(tasks.drop_last().push(tasks.last()) =~= tasks);
    }
}

} // verus!
