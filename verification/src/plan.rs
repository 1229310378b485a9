//! Plans: steps that sub-agents run one after the other, each after those it depends on.
use vstd::prelude::*;
use vstd::string::*;
use crate::json::Json;
use crate::order;
use crate::text;

verus! {

broadcast use vstd::string::group_string_axioms;

/// A step of a plan.
#[derive(Debug)]
pub struct PlanStep {
    pub id: String,
    /// The steps that must have run before.
    pub depends_on: Vec<String>,
    pub prompt: String,
    /// The named agent that runs the step.
    pub agent: Option<String>,
}

/// A step in the abstract.
#[verifier::ext_equal]
pub struct StepView {
    pub id: Seq<char>,
    pub depends_on: Seq<Seq<char>>,
    pub prompt: Seq<char>,
    pub agent: Option<Seq<char>>,
}

impl DeepView for PlanStep {
    type V = StepView;

    open spec fn deep_view(&self) -> StepView {
        StepView {
            id: self.id@,
            depends_on: self.depends_on.deep_view(),
            prompt: self.prompt@,
            agent: self.agent.deep_view(),
        }
    }
}

/// The results of the steps that have run, by their ids.
pub type Results = Seq<(Seq<char>, Seq<char>)>;

/// The result of the step with the id.
pub open spec fn result_of(results: Results, id: Seq<char>) -> Option<Seq<char>>
    decreases results.len(),
{
    if results.len() == 0 {
        None
    } else if results[0].0 == id {
        Some(results[0].1)
    } else {
        result_of(results.drop_first(), id)
    }
}

/// Whether the step with the id has run.
pub open spec fn has_run(results: Results, id: Seq<char>) -> bool {
    exists|i: int| 0 <= i < results.len() && (#[trigger] results[i]).0 == id
}

/// The results with that of the step put in, in place of one that was there.
pub open spec fn with_result(results: Results, id: Seq<char>, output: Seq<char>) -> Results
    decreases results.len(),
{
    if results.len() == 0 {
        seq![(id, output)]
    } else if results[0].0 == id {
        results.update(0, (id, output))
    } else {
        seq![results[0]] + with_result(results.drop_first(), id, output)
    }
}

/// The last step with the id, which is the one that counts.
pub open spec fn step_with(steps: Seq<StepView>, id: Seq<char>) -> Option<StepView>
    decreases steps.len(),
{
    if steps.len() == 0 {
        None
    } else if steps.last().id == id {
        Some(steps.last())
    } else {
        step_with(steps.drop_last(), id)
    }
}

/// Whether all the steps have run.
pub open spec fn all_have_run(results: Results, ids: Seq<Seq<char>>) -> bool {
    forall|i: int| 0 <= i < ids.len() ==> has_run(results, #[trigger] ids[i])
}

/// Whether the id is that of a step, and all that it depends on have run.
pub open spec fn unblocked(steps: Seq<StepView>, results: Results, id: Seq<char>) -> bool {
    match step_with(steps, id) {
        Some(step) => all_have_run(results, step.depends_on),
        None => false,
    }
}

/// Whether the step with the id can run: it has not run, and all that it depends on have.
pub open spec fn can_run(steps: Seq<StepView>, results: Results, id: Seq<char>) -> bool {
    !has_run(results, id) && unblocked(steps, results, id)
}

/// The ids of the steps that can run, in the order of the plan.
pub open spec fn ready_among(
    plan: Seq<StepView>,
    results: Results,
    steps: Seq<StepView>,
) -> Seq<Seq<char>>
    decreases steps.len(),
{
    if steps.len() == 0 {
        Seq::empty()
    } else {
        let head = ready_among(plan, results, steps.drop_last());
        if can_run(plan, results, steps.last().id) {
            head.push(steps.last().id)
        } else {
            head
        }
    }
}

/// The ids of the steps that can run, in the order of their ids.
pub open spec fn next_wave(steps: Seq<StepView>, results: Results) -> Seq<Seq<char>> {
    order::sorted(ready_among(steps, results, steps))
}

/// What a step is told of the steps that it depends on.
pub open spec fn prior_results(results: Results, ids: Seq<Seq<char>>) -> Seq<char>
    decreases ids.len(),
{
    if ids.len() == 0 {
        Seq::empty()
    } else {
        prior_results(results, ids.drop_last()) + match result_of(results, ids.last()) {
            Some(r) => "## Prior step "@ + ids.last() + " result:\n"@ + r + "\n\n"@,
            None => Seq::empty(),
        }
    }
}

/// What the run of a plan says of a step.
pub open spec fn step_report(id: Seq<char>, output: Seq<char>) -> Seq<char> {
    "## Step "@ + id + "\n"@ + output + "\n\n"@
}

// ---------------------------------------------------------------------------
// Facts about results and steps
// ---------------------------------------------------------------------------

proof fn lemma_result_of(results: Results, id: Seq<char>)
    ensures
        result_of(results, id) is Some <==> has_run(results, id),
    decreases results.len(),
{
    if results.len() > 0 && results[0].0 != id {
        let rest = results.drop_first();
        lemma_result_of(rest, id);
        if has_run(results, id) {
            let i = choose|i: int| 0 <= i < results.len() && (#[trigger] results[i]).0 == id;
            assert(rest[i - 1].0 == id);
        }
        if has_run(rest, id) {
            let i = choose|i: int| 0 <= i < rest.len() && (#[trigger] rest[i]).0 == id;
            assert(results[i + 1].0 == id);
        }
    }
}

proof fn lemma_result_at(results: Results, id: Seq<char>, i: int)
    requires
        0 <= i < results.len(),
        results[i].0 == id,
        forall|k: int| 0 <= k < i ==> (#[trigger] results[k]).0 != id,
    ensures
        result_of(results, id) == Some(results[i].1),
    decreases i,
{
    if i > 0 {
        assert(results[0].0 != id);
        let rest = results.drop_first();
        assert forall|k: int| 0 <= k < i - 1 implies (#[trigger] rest[k]).0 != id by {
            assert(results[k + 1].0 != id);
        }
        lemma_result_at(rest, id, i - 1);
    }
}

/// Whether no id occurs twice among the results.
pub open spec fn ids_once(results: Results) -> bool {
    forall|i: int, j: int|
        0 <= i < j < results.len() ==> (#[trigger] results[i]).0 != (#[trigger] results[j]).0
}

proof fn lemma_with_result_at(results: Results, id: Seq<char>, output: Seq<char>, i: int)
    requires
        0 <= i <= results.len(),
        i < results.len() ==> results[i].0 == id,
        forall|k: int| 0 <= k < i ==> (#[trigger] results[k]).0 != id,
    ensures
        with_result(results, id, output) == if i < results.len() {
            results.update(i, (id, output))
        } else {
            results.push((id, output))
        },
    decreases i,
{
    if i == 0 {
        if results.len() == 0 {
            assert(results.push((id, output)) =~= seq![(id, output)]);
        }
    } else {
        assert(results[0].0 != id);
        let rest = results.drop_first();
        assert forall|k: int| 0 <= k < i - 1 implies (#[trigger] rest[k]).0 != id by {
            assert(results[k + 1].0 != id);
        }
        lemma_with_result_at(rest, id, output, i - 1);
        if i < results.len() {
            assert(seq![results[0]] + rest.update(i - 1, (id, output)) =~= results.update(
                i,
                (id, output),
            ));
        } else {
            assert(seq![results[0]] + rest.push((id, output)) =~= results.push((id, output)));
        }
    }
}

/// Putting in a result keeps every id unique, makes the step's result the one put in, and
/// leaves those of all other steps.
pub proof fn law_with_result(results: Results, id: Seq<char>, output: Seq<char>, other: Seq<char>)
    ensures
        result_of(with_result(results, id, output), id) == Some(output),
        other != id ==> result_of(with_result(results, id, output), other) == result_of(
            results,
            other,
        ),
    decreases results.len(),
{
    reveal_with_fuel(result_of, 2);
    if results.len() == 0 {
    } else if results[0].0 == id {
        assert(results.update(0, (id, output)).drop_first() =~= results.drop_first());
    } else {
        law_with_result(results.drop_first(), id, output, other);
        let w = with_result(results, id, output);
        assert(w.drop_first() =~= with_result(results.drop_first(), id, output));
    }
}

proof fn lemma_with_result_once(results: Results, id: Seq<char>, output: Seq<char>)
    requires
        ids_once(results),
    ensures
        ids_once(with_result(results, id, output)),
        forall|x: Seq<char>| #[trigger]
            has_run(with_result(results, id, output), x) <==> (has_run(results, x) || x == id),
        with_result(results, id, output).len() == results.len() + if has_run(results, id) {
            0int
        } else {
            1int
        },
{
    let i = if has_run(results, id) {
        choose|i: int| 0 <= i < results.len() && (#[trigger] results[i]).0 == id
    } else {
        results.len() as int
    };
    assert forall|k: int| 0 <= k < i implies (#[trigger] results[k]).0 != id by {
        if results[k].0 == id {
            assert(has_run(results, id));
            assert(results[i].0 == id);
        }
    }
    lemma_with_result_at(results, id, output, i);
    let w = with_result(results, id, output);
    assert forall|x: Seq<char>| #[trigger] has_run(w, x) <==> (has_run(results, x) || x == id) by {
        if has_run(w, x) {
            let k = choose|k: int| 0 <= k < w.len() && (#[trigger] w[k]).0 == x;
            if k != i {
                assert(results[k].0 == x);
            }
        }
        if has_run(results, x) {
            let k = choose|k: int| 0 <= k < results.len() && (#[trigger] results[k]).0 == x;
            assert(w[k].0 == x);
        }
        assert(w[i].0 == id);
    }
}

proof fn lemma_step_with(steps: Seq<StepView>, id: Seq<char>)
    ensures
        step_with(steps, id) is Some <==> exists|i: int|
            0 <= i < steps.len() && (#[trigger] steps[i]).id == id,
        step_with(steps, id) matches Some(s) ==> s.id == id,
    decreases steps.len(),
{
    if steps.len() > 0 && steps.last().id != id {
        let head = steps.drop_last();
        lemma_step_with(head, id);
        if exists|i: int| 0 <= i < steps.len() && (#[trigger] steps[i]).id == id {
            let i = choose|i: int| 0 <= i < steps.len() && (#[trigger] steps[i]).id == id;
            assert(head[i].id == id);
        }
        if exists|i: int| 0 <= i < head.len() && (#[trigger] head[i]).id == id {
            let i = choose|i: int| 0 <= i < head.len() && (#[trigger] head[i]).id == id;
            assert(steps[i].id == id);
        }
    } else if steps.len() > 0 {
        assert(steps[steps.len() - 1].id == id);
    }
}

proof fn lemma_ready(plan: Seq<StepView>, results: Results, steps: Seq<StepView>, id: Seq<char>)
    ensures
        ready_among(plan, results, steps).contains(id) <==> (can_run(plan, results, id) && exists|
            i: int,
        |
            0 <= i < steps.len() && (#[trigger] steps[i]).id == id),
    decreases steps.len(),
{
    if steps.len() > 0 {
        let head = steps.drop_last();
        lemma_ready(plan, results, head, id);
        let r = ready_among(plan, results, steps);
        let h = ready_among(plan, results, head);
        if h.contains(id) {
            let k = choose|k: int| 0 <= k < h.len() && h[k] == id;
            assert(r[k] == id);
        }
        if r.contains(id) {
            let k = choose|k: int| 0 <= k < r.len() && r[k] == id;
            if k < h.len() {
                assert(h[k] == id);
            } else {
                assert(steps[steps.len() - 1].id == id);
            }
        }
        if exists|i: int| 0 <= i < steps.len() && (#[trigger] steps[i]).id == id {
            let i = choose|i: int| 0 <= i < steps.len() && (#[trigger] steps[i]).id == id;
            if i < head.len() {
                assert(head[i].id == id);
            } else if can_run(plan, results, id) {
                assert(r[r.len() - 1] == id);
            }
        }
        if exists|i: int| 0 <= i < head.len() && (#[trigger] head[i]).id == id {
            let i = choose|i: int| 0 <= i < head.len() && (#[trigger] head[i]).id == id;
            assert(steps[i].id == id);
        }
    }
}

/// The next wave holds exactly the steps that can run: those that have not run, and of which
/// every dependency has.
pub proof fn law_wave_respects_dependencies(
    steps: Seq<StepView>,
    results: Results,
    id: Seq<char>,
)
    ensures
        next_wave(steps, results).contains(id) <==> can_run(steps, results, id),
{
    let ready = ready_among(steps, results, steps);
    order::law_sorted_is_ordered_permutation(ready);
    assert(order::sorted(ready).contains(id) <==> ready.contains(id)) by {
        broadcast use vstd::seq_lib::group_to_multiset_ensures;

        assert(order::sorted(ready).contains(id) <==> order::sorted(ready).to_multiset().count(id)
            > 0);
        assert(ready.contains(id) <==> ready.to_multiset().count(id) > 0);
    }
    lemma_ready(steps, results, steps, id);
    lemma_step_with(steps, id);
}

// ---------------------------------------------------------------------------
// Running a plan
// ---------------------------------------------------------------------------

/// A plan that runs.
#[derive(Debug)]
pub struct PlanRun {
    pub steps: Vec<PlanStep>,
    /// The results of the steps that have run.
    pub results: Vec<(String, String)>,
    /// The steps of the wave that are still to run.
    pub wave: Vec<String>,
    /// What the run says so far.
    pub report: String,
}

/// A plan that runs, in the abstract.
#[verifier::ext_equal]
pub struct PlanView {
    pub steps: Seq<StepView>,
    pub results: Results,
    pub wave: Seq<Seq<char>>,
    pub report: Seq<char>,
}

impl DeepView for PlanRun {
    type V = PlanView;

    open spec fn deep_view(&self) -> PlanView {
        PlanView {
            steps: self.steps.deep_view(),
            results: self.results.deep_view(),
            wave: self.wave.deep_view(),
            report: self.report@,
        }
    }
}

impl PlanView {
    /// Whether a plan can be in this state: each result is that of a step of the plan, there
    /// is one for each, and every step of the wave is one of the plan whose dependencies have
    /// run.
    pub open spec fn valid(self) -> bool {
        &&& ids_once(self.results)
        &&& forall|i: int|
            0 <= i < self.results.len() ==> step_with(
                self.steps,
                (#[trigger] self.results[i]).0,
            ) is Some
        &&& forall|i: int|
            0 <= i < self.wave.len() ==> unblocked(self.steps, self.results, #[trigger] self.wave[i])
    }

    /// Whether there is nothing left to run.
    pub open spec fn is_finished(self) -> bool {
        self.wave.len() == 0 && self.results.len() >= self.steps.len()
    }

    /// The state in which the next step of the plan runs.
    pub open spec fn with_wave(self) -> PlanView {
        if self.wave.len() == 0 {
            PlanView { wave: next_wave(self.steps, self.results), ..self }
        } else {
            self
        }
    }

    /// The prompt of the step with the id.
    pub open spec fn prompt_for(self, id: Seq<char>) -> Seq<char> {
        let step = step_with(self.steps, id)->0;
        prior_results(self.results, step.depends_on) + step.prompt
    }

    /// The state after the first step of the wave has run.
    pub open spec fn after_step(self, output: Seq<char>) -> PlanView {
        PlanView {
            results: with_result(self.results, self.wave[0], output),
            wave: self.wave.drop_first(),
            report: self.report + step_report(self.wave[0], output),
            ..self
        }
    }
}

/// Why a plan does not run.
pub open spec fn plan_refusal(steps: Seq<StepView>) -> Option<Seq<char>> {
    if steps.len() == 0 {
        Some("plan.steps is empty"@)
    } else if exists|i: int|
        0 <= i < steps.len() && ((#[trigger] steps[i]).id.len() == 0 || steps[i].prompt.len()
            == 0) {
        Some("Each step needs non-empty id and prompt"@)
    } else {
        None
    }
}

/// What is to be done for a plan.
#[derive(Debug)]
pub enum PlanAction {
    /// The step runs, with the prompt and under the label.
    Run { prompt: String, label: String, agent: Option<String> },
    /// The plan has run.
    Finished(String),
    /// No step can run, though some have not.
    Deadlock(String),
}

/// Whether this is what is to be done next of a plan: the first step of its wave runs, or all has
/// run, or no step can.
pub open spec fn goes_on(p: PlanView, after: PlanView, r: PlanAction) -> bool {
    if p.is_finished() {
        &&& after == p
        &&& r matches PlanAction::Finished(s) && s@ == p.report
    } else if p.with_wave().wave.len() == 0 {
        &&& after == p
        &&& r matches PlanAction::Deadlock(s) && s@ == "Plan deadlock or missing dependency ids"@
    } else {
        let id = p.with_wave().wave[0];
        &&& after == p.with_wave()
        &&& r matches PlanAction::Run { prompt, label, agent } && prompt@ == p.prompt_for(id)
            && label@ == "plan-"@ + id && agent.deep_view() == step_with(p.steps, id)->0.agent
    }
}

/// Reads the plan that the tool is called with.
pub fn plan_argument(args: &Json) -> (r: Result<String, String>)
    ensures
        match args@.text_at("plan"@) {
            Some(plan) => r matches Ok(s) && s@ == plan,
            None => r matches Err(e) && e@ == "Missing plan (JSON string)"@,
        },
{
    match args.text_at("plan") {
        Some(plan) => Ok(plan.to_owned()),
        None => Err("Missing plan (JSON string)".to_owned()),
    }
}

/// What counts as the output of a step: the result that the answer of its sub-agent names,
/// and the whole answer where it names none.
pub fn step_output(answer: Option<&Json>, raw: &str) -> (r: String)
    ensures
        r@ == match answer {
            Some(j) => match j@.text_at("result"@) {
                Some(s) => s,
                None => raw@,
            },
            None => raw@,
        },
{
    match answer {
        Some(j) => match j.text_at("result") {
            Some(s) => s.to_owned(),
            None => raw.to_owned(),
        },
        None => raw.to_owned(),
    }
}

fn find_result(results: &Vec<(String, String)>, id: &str) -> (r: Option<usize>)
    ensures
        match r {
            Some(i) => i < results@.len() && results@[i as int].0@ == id@ && result_of(
                results.deep_view(),
                id@,
            ) == Some(results@[i as int].1@) && has_run(results.deep_view(), id@) && forall|k: int|
                0 <= k < i ==> (#[trigger] results@[k]).0@ != id@,
            None => result_of(results.deep_view(), id@) is None && !has_run(
                results.deep_view(),
                id@,
            ) && forall|k: int| 0 <= k < results@.len() ==> (#[trigger] results@[k]).0@ != id@,
        },
{
    let ghost all = results.deep_view();
    let mut i: usize = 0;
    while i < results.len()
        invariant
            i <= results@.len(),
            all == results.deep_view(),
            forall|k: int| 0 <= k < i ==> (#[trigger] all[k]).0 != id@,
            forall|k: int| 0 <= k < i ==> (#[trigger] results@[k]).0@ != id@,
        decreases results@.len() - i,
    {
        assert(all[i as int] == results@[i as int].deep_view());
        if text::same(results[i].0.as_str(), id) {
            proof {
                lemma_result_at(all, id@, i as int);
                lemma_result_of(all, id@);
            }
            return Some(i);
        }
        i = i + 1;
    }
    proof {
        lemma_result_of(all, id@);
        assert(!has_run(all, id@));
    }
    None
}

fn find_step<'a>(steps: &'a Vec<PlanStep>, id: &str) -> (r: Option<&'a PlanStep>)
    ensures
        match r {
            Some(s) => step_with(steps.deep_view(), id@) == Some(s.deep_view()),
            None => step_with(steps.deep_view(), id@) is None,
        },
{
    let ghost all = steps.deep_view();
    let mut i: usize = steps.len();
    assert(all.take(i as int) =~= all);
    while i > 0
        invariant
            i <= steps@.len(),
            all == steps.deep_view(),
            step_with(all, id@) == step_with(all.take(i as int), id@),
        decreases i,
    {
        i = i - 1;
        assert(all.take(i + 1).drop_last() =~= all.take(i as int));
        assert(all.take(i + 1).last() == all[i as int]);
        assert(all[i as int] == steps@[i as int].deep_view());
        if text::same(steps[i].id.as_str(), id) {
            return Some(&steps[i]);
        }
    }
    None
}

fn every_one_has_run(results: &Vec<(String, String)>, ids: &Vec<String>) -> (r: bool)
    ensures
        r == all_have_run(results.deep_view(), ids.deep_view()),
{
    let ghost wanted = ids.deep_view();
    let mut i: usize = 0;
    while i < ids.len()
        invariant
            i <= ids@.len(),
            wanted == ids.deep_view(),
            forall|k: int| 0 <= k < i ==> has_run(results.deep_view(), #[trigger] wanted[k]),
        decreases ids@.len() - i,
    {
        assert(wanted[i as int] == ids@[i as int]@);
        if find_result(results, ids[i].as_str()).is_none() {
            return false;
        }
        i = i + 1;
    }
    true
}

impl PlanRun {
    /// Starts a plan.
    pub fn new(steps: Vec<PlanStep>) -> (r: Result<PlanRun, String>)
        ensures
            match plan_refusal(steps.deep_view()) {
                None => r matches Ok(run) && run.deep_view() == (PlanView {
                    steps: steps.deep_view(),
                    results: Seq::empty(),
                    wave: Seq::empty(),
                    report: "# Plan execution\n\n"@,
                }) && run.deep_view().valid(),
                Some(why) => r matches Err(e) && e@ == why,
            },
    {
        let ghost all = steps.deep_view();
        if steps.len() == 0 {
            return Err("plan.steps is empty".to_owned());
        }
        let mut i: usize = 0;
        while i < steps.len()
            invariant
                i <= steps@.len(),
                all == steps.deep_view(),
                forall|k: int|
                    0 <= k < i ==> (#[trigger] all[k]).id.len() > 0 && all[k].prompt.len() > 0,
            decreases steps@.len() - i,
        {
            assert(all[i as int] == steps@[i as int].deep_view());
            if steps[i].id.as_str().is_empty() || steps[i].prompt.as_str().is_empty() {
                return Err("Each step needs non-empty id and prompt".to_owned());
            }
            i = i + 1;
        }
        let run = PlanRun {
            steps,
            results: Vec::new(),
            wave: Vec::new(),
            report: "# Plan execution\n\n".to_owned(),
        };
        assert(run.deep_view().results =~= Seq::empty());
        assert(run.deep_view().wave =~= Seq::empty());
        Ok(run)
    }

    fn find_ready(&self) -> (r: Vec<String>)
        ensures
            r.deep_view() == ready_among(
                self.deep_view().steps,
                self.deep_view().results,
                self.deep_view().steps,
            ),
    {
        let ghost all = self.deep_view().steps;
        let ghost results = self.deep_view().results;
        let mut ready: Vec<String> = Vec::new();
        let mut i: usize = 0;
        assert(ready.deep_view() =~= ready_among(all, results, all.take(0)));
        while i < self.steps.len()
            invariant
                i <= self.steps@.len(),
                all == self.steps.deep_view(),
                results == self.results.deep_view(),
                ready.deep_view() == ready_among(all, results, all.take(i as int)),
            decreases self.steps@.len() - i,
        {
            let ghost so_far = ready.deep_view();
            let id: &String = &self.steps[i].id;
            assert(all.take(i + 1).drop_last() =~= all.take(i as int));
            assert(all.take(i + 1).last() == all[i as int]);
            assert(all[i as int] == self.steps@[i as int].deep_view());
            if find_result(&self.results, id.as_str()).is_none() {
                if let Some(step) = find_step(&self.steps, id.as_str()) {
                    if every_one_has_run(&self.results, &step.depends_on) {
                        ready.push(id.clone());
                        assert(ready.deep_view() =~= so_far.push(id@));
                    }
                }
            }
            i = i + 1;
        }
        assert(all.take(i as int) =~= all);
        ready
    }

    fn prompt_of(&self, step: &PlanStep) -> (r: String)
        ensures
            r@ == prior_results(self.deep_view().results, step.deep_view().depends_on)
                + step.prompt@,
    {
        let ghost ids = step.depends_on.deep_view();
        let ghost results = self.results.deep_view();
        let mut body: String = String::new();
        let mut i: usize = 0;
        assert(body@ =~= prior_results(results, ids.take(0)));
        while i < step.depends_on.len()
            invariant
                i <= step.depends_on@.len(),
                ids == step.depends_on.deep_view(),
                results == self.results.deep_view(),
                body@ == prior_results(results, ids.take(i as int)),
            decreases step.depends_on@.len() - i,
        {
            let ghost so_far = body@;
            let id: &String = &step.depends_on[i];
            assert(ids.take(i + 1).drop_last() =~= ids.take(i as int));
            assert(ids.take(i + 1).last() == id@);
            match find_result(&self.results, id.as_str()) {
                Some(at) => {
                    body.append("## Prior step ");
                    body.append(id.as_str());
                    body.append(" result:\n");
                    body.append(self.results[at].1.as_str());
                    body.append("\n\n");
                    assert(body@ =~= so_far + ("## Prior step "@ + id@ + " result:\n"@
                        + self.results@[at as int].1@ + "\n\n"@));
                },
                None => {
                    assert(so_far + Seq::<char>::empty() =~= so_far);
                },
            }
            i = i + 1;
        }
        assert(ids.take(i as int) =~= ids);
        body.append(step.prompt.as_str());
        body
    }

    /// Decides what is to be done next. The steps run in waves: each wave holds those that
    /// can run, in the order of their ids.
    pub fn next_action(&mut self) -> (r: PlanAction)
        requires
            old(self).deep_view().valid(),
        ensures
            final(self).deep_view().valid(),
            goes_on(old(self).deep_view(), final(self).deep_view(), r),
    {
        let ghost p = self.deep_view();
        if self.wave.len() == 0 {
            if self.results.len() >= self.steps.len() {
                return PlanAction::Finished(self.report.clone());
            }
            let ready: Vec<String> = self.find_ready();
            let ghost given = ready@;
            let ghost unsorted = ready.deep_view();
            let mut wave: Vec<String> = Vec::new();
            assert(wave.deep_view() =~= order::sorted(unsorted.take(0)));
            for id in it: ready
                invariant
                    it.seq() == given,
                    unsorted.len() == given.len(),
                    forall|k: int| 0 <= k < given.len() ==> #[trigger] unsorted[k] == given[k]@,
                    wave.deep_view() == order::sorted(unsorted.take(it.index())),
            {
                proof {
                    assert(unsorted.take(it.index() + 1).drop_last() =~= unsorted.take(it.index()));
                    assert(unsorted.take(it.index() + 1).last() == unsorted[it.index()]);
                }
                order::insert_in_order(&mut wave, id);
            }
            assert(unsorted.take(unsorted.len() as int) =~= unsorted);
            proof {
                assert forall|i: int| 0 <= i < wave.deep_view().len() implies unblocked(
                    p.steps,
                    p.results,
                    #[trigger] wave.deep_view()[i],
                ) by {
                    assert(next_wave(p.steps, p.results).contains(wave.deep_view()[i]));
                    law_wave_respects_dependencies(p.steps, p.results, wave.deep_view()[i]);
                }
            }
            if wave.len() == 0 {
                return PlanAction::Deadlock("Plan deadlock or missing dependency ids".to_owned());
            }
            self.wave = wave;
        }
        let ghost q = self.deep_view();
        assert(q.wave[0] == self.wave@[0]@);
        let id: &String = &self.wave[0];
        let mut label: String = "plan-".to_owned();
        label.append(id.as_str());
        match find_step(&self.steps, id.as_str()) {
            Some(step) => PlanAction::Run {
                prompt: self.prompt_of(step),
                label,
                agent: match &step.agent {
                    Some(a) => Some(a.clone()),
                    None => None,
                },
            },
            None => PlanAction::Deadlock("Plan deadlock or missing dependency ids".to_owned()),
        }
    }

    /// Goes on after the first step of the wave has run.
    pub fn record(&mut self, output: &str)
        requires
            old(self).deep_view().valid(),
            old(self).wave@.len() > 0,
        ensures
            final(self).deep_view() == old(self).deep_view().after_step(output@),
            final(self).deep_view().valid(),
    {
        let ghost p = self.deep_view();
        assert(p.wave[0] == self.wave@[0]@);
        let id: String = self.wave.remove(0);
        assert(self.wave.deep_view() =~= p.wave.drop_first());
        let ghost before = self.results.deep_view();
        match find_result(&self.results, id.as_str()) {
            Some(at) => {
                self.results[at] = (id.clone(), output.to_owned());
                proof {
                    assert forall|k: int| 0 <= k < at implies (#[trigger] before[k]).0 != id@ by {
                        assert(before[k] == p.results[k]);
                    }
                    lemma_with_result_at(before, id@, output@, at as int);
                    assert(self.results.deep_view() =~= before.update(at as int, (id@, output@)));
                }
            },
            None => {
                self.results.push((id.clone(), output.to_owned()));
                proof {
                    lemma_with_result_at(before, id@, output@, before.len() as int);
                    assert(self.results.deep_view() =~= before.push((id@, output@)));
                }
            },
        }
        let ghost start = self.report@;
        self.report.append("## Step ");
        self.report.append(id.as_str());
        self.report.append("\n");
        self.report.append(output);
        self.report.append("\n\n");
        assert(self.report@ =~= start + step_report(id@, output@));
        proof {
            let q = self.deep_view();
            lemma_with_result_once(before, id@, output@);
            assert forall|i: int| 0 <= i < q.results.len() implies step_with(
                q.steps,
                (#[trigger] q.results[i]).0,
            ) is Some by {
                let x = q.results[i].0;
                assert(has_run(q.results, x));
                if x != id@ {
                    assert(has_run(before, x));
                    let k = choose|k: int| 0 <= k < before.len() && (#[trigger] before[k]).0 == x;
                    assert(p.results[k].0 == x);
                }
            }
            assert forall|i: int| 0 <= i < q.wave.len() implies unblocked(
                q.steps,
                q.results,
                #[trigger] q.wave[i],
            ) by {
                assert(q.wave[i] == p.wave[i + 1]);
                let ids = step_with(q.steps, q.wave[i])->0.depends_on;
                assert forall|k: int| 0 <= k < ids.len() implies has_run(
                    q.results,
                    #[trigger] ids[k],
                ) by {
                    assert(has_run(p.results, ids[k]));
                }
            }
        }
    }
}

// ---------------------------------------------------------------------------
// Laws
// ---------------------------------------------------------------------------

/// A step runs only after every step that it depends on.
pub proof fn law_step_runs_after_dependencies(p: PlanView, dependency: Seq<char>)
    requires
        p.valid(),
        p.with_wave().wave.len() > 0,
        step_with(p.steps, p.with_wave().wave[0])->0.depends_on.contains(dependency),
    ensures
        result_of(p.results, dependency) is Some,
{
    let id = p.with_wave().wave[0];
    if p.wave.len() == 0 {
        assert(next_wave(p.steps, p.results).contains(id));
        law_wave_respects_dependencies(p.steps, p.results, id);
    }
    let ids = step_with(p.steps, id)->0.depends_on;
    let k = choose|k: int| 0 <= k < ids.len() && ids[k] == dependency;
    assert(has_run(p.results, ids[k]));
    lemma_result_of(p.results, dependency);
}

/// Where a plan is stuck, every step that has not run waits for one that has not run either,
/// or that is not in the plan.
pub proof fn law_deadlock_means_blocked(p: PlanView, id: Seq<char>)
    requires
        p.valid(),
        !p.is_finished(),
        p.with_wave().wave.len() == 0,
        step_with(p.steps, id) is Some,
    ensures
        has_run(p.results, id) || exists|k: int|
            0 <= k < step_with(p.steps, id)->0.depends_on.len() && !has_run(
                p.results,
                #[trigger] step_with(p.steps, id)->0.depends_on[k],
            ),
{
    law_wave_respects_dependencies(p.steps, p.results, id);
    if can_run(p.steps, p.results, id) {
        assert(next_wave(p.steps, p.results).contains(id));
    }
}

/// A wave brings the plan on: its first step has not run before.
pub proof fn law_wave_makes_progress(p: PlanView, output: Seq<char>)
    requires
        p.valid(),
        p.wave.len() == 0,
        p.with_wave().wave.len() > 0,
    ensures
        p.with_wave().after_step(output).results.len() == p.results.len() + 1,
{
    let id = p.with_wave().wave[0];
    assert(next_wave(p.steps, p.results).contains(id));
    law_wave_respects_dependencies(p.steps, p.results, id);
    lemma_with_result_once(p.results, id, output);
}

/// The ids of the steps.
pub open spec fn ids_of(steps: Seq<StepView>) -> Seq<Seq<char>> {
    steps.map_values(|s: StepView| s.id)
}

/// A plan never has more results than different ids, and it is finished only where every
/// step has run. So a plan in which an id occurs twice is never finished.
pub proof fn law_finished_plan_has_run(p: PlanView)
    requires
        p.valid(),
    ensures
        p.results.len() <= ids_of(p.steps).to_set().len() <= p.steps.len(),
        p.is_finished() ==> ids_of(p.steps).no_duplicates() && forall|i: int|
            0 <= i < p.steps.len() ==> has_run(p.results, (#[trigger] p.steps[i]).id),
{
    let ids = ids_of(p.steps);
    let ran = p.results.map_values(|r: (Seq<char>, Seq<char>)| r.0);
    ids.lemma_cardinality_of_set();
    assert(ran.no_duplicates());
    ran.unique_seq_to_set();
    assert(ran.to_set().subset_of(ids.to_set())) by {
        assert forall|x: Seq<char>| ran.to_set().contains(x) implies ids.to_set().contains(x) by {
            let k = choose|k: int| 0 <= k < ran.len() && ran[k] == x;
            assert(p.results[k].0 == x);
            lemma_step_with(p.steps, x);
            let i = choose|i: int| 0 <= i < p.steps.len() && (#[trigger] p.steps[i]).id == x;
            assert(ids[i] == x);
        }
    }
    vstd::set_lib::lemma_len_subset(ran.to_set(), ids.to_set());
    if p.is_finished() {
        ids.lemma_no_dup_set_cardinality();
        vstd::set_lib::lemma_subset_equality(ran.to_set(), ids.to_set());
        assert forall|i: int| 0 <= i < p.steps.len() implies has_run(
            p.results,
            (#[trigger] p.steps[i]).id,
        ) by {
            assert(ids[i] == p.steps[i].id);
            assert(ids.to_set().contains(ids[i]));
            assert(ran.contains(ids[i]));
            let k = choose|k: int| 0 <= k < ran.len() && ran[k] == ids[i];
            assert(p.results[k].0 == p.steps[i].id);
        }
    }
}

/// A step is in the next wave if and only if the plan has it, it has no result yet, and each of
/// the steps that it waits for has one. The wave is in order.
pub proof fn law_wave_is_what_can_run(p: PlanView, id: Seq<char>)
    requires
        p.wave.len() == 0,
    ensures
        p.with_wave().wave.contains(id) <==> ({
            &&& result_of(p.results, id) is None
            &&& step_with(p.steps, id) matches Some(step)
            &&& forall|k: int|
                0 <= k < step.depends_on.len() ==> result_of(
                    p.results,
                    #[trigger] step.depends_on[k],
                ) is Some
        }),
        forall|i: int, j: int|
            0 <= i < j < p.with_wave().wave.len() ==> !order::before(
                #[trigger] p.with_wave().wave[j],
                #[trigger] p.with_wave().wave[i],
            ),
        p.with_wave().results == p.results,
        p.with_wave().steps == p.steps,
        p.with_wave().report == p.report,
{
    law_wave_respects_dependencies(p.steps, p.results, id);
    lemma_result_of(p.results, id);
    assert forall|x: Seq<char>| #[trigger]
        has_run(p.results, x) <==> result_of(p.results, x) is Some by {
        lemma_result_of(p.results, x);
    }
    order::law_sorted_is_ordered_permutation(ready_among(p.steps, p.results, p.steps));
    if let Some(step) = step_with(p.steps, id) {
        if forall|k: int|
            0 <= k < step.depends_on.len() ==> result_of(
                p.results,
                #[trigger] step.depends_on[k],
            ) is Some {
            assert forall|k: int| 0 <= k < step.depends_on.len() implies has_run(
                p.results,
                #[trigger] step.depends_on[k],
            ) by {
                assert(result_of(p.results, step.depends_on[k]) is Some);
            }
        }
        if all_have_run(p.results, step.depends_on) {
            assert forall|k: int| 0 <= k < step.depends_on.len() implies result_of(
                p.results,
                #[trigger] step.depends_on[k],
            ) is Some by {
                assert(has_run(p.results, step.depends_on[k]));
            }
        }
    }
}

/// Where two steps have one id, the later is the one that counts.
pub proof fn law_step_is_found_by_its_id(steps: Seq<StepView>, i: int)
    requires
        0 <= i < steps.len(),
        forall|k: int| i < k < steps.len() ==> (#[trigger] steps[k]).id != steps[i].id,
    ensures
        step_with(steps, steps[i].id) == Some(steps[i]),
    decreases steps.len() - i,
{
    if i < steps.len() - 1 {
        let head = steps.drop_last();
        assert(steps[steps.len() - 1].id != steps[i].id);
        assert(head[i] == steps[i]);
        assert forall|k: int| i < k < head.len() implies (#[trigger] head[k]).id
            != head[i].id by {
            assert(head[k] == steps[k]);
        }
        law_step_is_found_by_its_id(head, i);
    }
}

proof fn lemma_prior_results_concat(results: Results, a: Seq<Seq<char>>, b: Seq<Seq<char>>)
    ensures
        prior_results(results, a + b) == prior_results(results, a) + prior_results(results, b),
    decreases b.len(),
{
    if b.len() == 0 {
        assert(a + b =~= a);
        assert(prior_results(results, a) + prior_results(results, b) =~= prior_results(
            results,
            a,
        ));
    } else {
        lemma_prior_results_concat(results, a, b.drop_last());
        assert((a + b).drop_last() =~= a + b.drop_last());
        assert((a + b).last() == b.last());
        assert(prior_results(results, a + b) =~= prior_results(results, a) + prior_results(
            results,
            b,
        ));
    }
}

/// A step is prompted with its own prompt, and before it with what each of the steps that it
/// waits for has given, under that step's id and in the order in which the step names them.
pub proof fn law_step_is_told_what_came_before(
    p: PlanView,
    id: Seq<char>,
    before: Seq<Seq<char>>,
    dependency: Seq<char>,
    after: Seq<Seq<char>>,
    given: Seq<char>,
)
    requires
        step_with(p.steps, id) is Some,
        step_with(p.steps, id)->0.depends_on == before + seq![dependency] + after,
        result_of(p.results, dependency) == Some(given),
    ensures
        p.prompt_for(id) == prior_results(p.results, before) + "## Prior step "@ + dependency
            + " result:\n"@ + given + "\n\n"@ + prior_results(p.results, after) + step_with(
            p.steps,
            id,
        )->0.prompt,
        text::ends_with(p.prompt_for(id), step_with(p.steps, id)->0.prompt),
        text::contains(p.prompt_for(id), given),
        prior_results(p.results, Seq::empty()).len() == 0,
{
    let prompt = step_with(p.steps, id)->0.prompt;
    reveal_with_fuel(prior_results, 2);
    let one = "## Prior step "@ + dependency + " result:\n"@ + given + "\n\n"@;
    assert(prior_results(p.results, seq![dependency]) =~= one) by {
        assert(seq![dependency].drop_last() =~= Seq::empty());
        assert(prior_results(p.results, seq![dependency].drop_last()) =~= Seq::<char>::empty());
    }
    lemma_prior_results_concat(p.results, before, seq![dependency]);
    lemma_prior_results_concat(p.results, before + seq![dependency], after);
    let head = prior_results(p.results, before);
    let tail = prior_results(p.results, after);
    assert(p.prompt_for(id) =~= head + "## Prior step "@ + dependency + " result:\n"@ + given
        + "\n\n"@ + tail + prompt);
    text::lemma_contains_middle(
        head + "## Prior step "@ + dependency + " result:\n"@,
        given,
        "\n\n"@ + tail + prompt,
    );
    assert(p.prompt_for(id) =~= head + "## Prior step "@ + dependency + " result:\n"@ + given + (
    "\n\n"@ + tail + prompt));
    let all = p.prompt_for(id);
    assert(all.subrange(all.len() - prompt.len(), all.len() as int) =~= prompt);
}

/// A step without dependencies is prompted with its own prompt alone.
pub proof fn law_first_step_is_told_nothing_more(p: PlanView, id: Seq<char>)
    requires
        step_with(p.steps, id) is Some,
        step_with(p.steps, id)->0.depends_on.len() == 0,
    ensures
        p.prompt_for(id) == step_with(p.steps, id)->0.prompt,
{
    let prompt = step_with(p.steps, id)->0.prompt;
    assert(Seq::<char>::empty() + prompt =~= prompt);
}

/// The step that ran is the first of the wave: its result is kept under its id and stands at the
/// end of the report, the others' results stay, and the rest of the wave is left to run.
pub proof fn law_step_result_is_kept(p: PlanView, output: Seq<char>, other: Seq<char>)
    requires
        p.wave.len() > 0,
    ensures
        result_of(p.after_step(output).results, p.wave[0]) == Some(output),
        other != p.wave[0] ==> result_of(p.after_step(output).results, other) == result_of(
            p.results,
            other,
        ),
        seq![p.wave[0]] + p.after_step(output).wave == p.wave,
        p.after_step(output).report == p.report + "## Step "@ + p.wave[0] + "\n"@ + output
            + "\n\n"@,
        p.after_step(output).steps == p.steps,
{
    law_with_result(p.results, p.wave[0], output, other);
    assert(seq![p.wave[0]] + p.wave.drop_first() =~= p.wave);
    assert(p.after_step(output).report =~= p.report + "## Step "@ + p.wave[0] + "\n"@ + output
        + "\n\n"@);
}

/// A plan is refused if and only if it has no steps, or a step that has no id or no prompt; and
/// a plan ends once its wave is done and it has a result for every step.
pub proof fn law_only_whole_plans_run(p: PlanView, i: int)
    ensures
        p.steps.len() == 0 ==> plan_refusal(p.steps) is Some,
        0 <= i < p.steps.len() && (p.steps[i].id.len() == 0 || p.steps[i].prompt.len() == 0)
            ==> plan_refusal(p.steps) is Some,
        p.steps.len() > 0 && (forall|k: int|
            0 <= k < p.steps.len() ==> (#[trigger] p.steps[k]).id.len() > 0
                && p.steps[k].prompt.len() > 0) ==> plan_refusal(p.steps) is None,
        p.wave.len() > 0 ==> !p.is_finished(),
        p.results.len() < p.steps.len() ==> !p.is_finished(),
        p.wave.len() == 0 && p.results.len() == p.steps.len() ==> p.is_finished(),
{
}

/// While a step can run one does: the first of the wave, with its own prompt behind the results
/// of the steps that it waits for, under its id and as the agent that it names. A plan ends with
/// its report once all has run, and stands still only where no step can run.
pub proof fn law_plan_goes_on(p: PlanView, after: PlanView, r: PlanAction)
    requires
        goes_on(p, after, r),
    ensures
        r is Finished <==> p.wave.len() == 0 && p.results.len() >= p.steps.len(),
        r matches PlanAction::Finished(s) ==> s@ == p.report,
        r is Deadlock <==> p.wave.len() == 0 && p.results.len() < p.steps.len() && next_wave(
            p.steps,
            p.results,
        ).len() == 0,
        r matches PlanAction::Run { prompt, label, agent } ==> after.wave.len() > 0
            && text::ends_with(label@, after.wave[0]) && prompt@ == prior_results(
            p.results,
            step_with(p.steps, after.wave[0])->0.depends_on,
        ) + step_with(p.steps, after.wave[0])->0.prompt && agent.deep_view() == step_with(
            p.steps,
            after.wave[0],
        )->0.agent,
        p.wave.len() > 0 ==> r is Run && after.wave == p.wave,
        after.results == p.results,
        after.steps == p.steps,
        after.report == p.report,
{
    if let PlanAction::Run { prompt, label, agent } = r {
        let id = after.wave[0];
        let all = "plan-"@ + id;
        assert(all.subrange(all.len() - id.len(), all.len() as int) =~= id);
    }
}

} // verus!
