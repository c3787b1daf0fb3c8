//! Workflows: phases, the transitions between them, and the builder that
//! checks that every transition connects phases of the same workflow.
use vstd::prelude::*;
use crate::field::id_path;
use crate::form::name_path;
use crate::validation::{
    check_length, finding_views, length_findings, length_within, path1, path3, push_finding,
    text_eq, Attr, Finding, PathStep, Rule, ValidationErrors, ValidationFinding,
};

verus! {

/// The role of a phase in its workflow.
#[derive(Clone, Copy, Debug, PartialEq, Eq, Structural)]
pub enum PhaseType {
    /// Where a new document enters the workflow.
    Start,
    /// A working state.
    Normal,
    /// A terminal state, by convention.
    End,
}

/// A state of a workflow.
#[derive(Clone, Debug)]
pub struct Phase {
    pub id: String,
    pub label: String,
    pub phase_type: PhaseType,
}

impl Phase {
    pub fn new(id: &str, label: &str, phase_type: PhaseType) -> (r: Self)
        ensures
            r.id@ == id@,
            r.label@ == label@,
            r.phase_type == phase_type,
    {
        Phase { id: String::from_str(id), label: String::from_str(label), phase_type }
    }
}

/// A named, directed edge from one phase to another.
#[derive(Clone, Debug)]
pub struct Transition {
    pub name: String,
    pub from: String,
    pub to: String,
}

impl Transition {
    pub fn new(name: &str, from: &str, to: &str) -> (r: Self)
        ensures
            r.name@ == name@,
            r.from@ == from@,
            r.to@ == to@,
    {
        Transition { name: String::from_str(name), from: String::from_str(from), to: String::from_str(to) }
    }
}

pub open spec fn phase_ids(phases: Seq<Phase>) -> Seq<Seq<char>> {
    phases.map_values(|p: Phase| p.id@)
}

pub open spec fn phase_path(i: int, a: Attr) -> Seq<PathStep> {
    seq![PathStep::Attr(Attr::Phases), PathStep::Index(i as usize), PathStep::Attr(a)]
}

pub open spec fn transition_path(i: int, a: Attr) -> Seq<PathStep> {
    seq![PathStep::Attr(Attr::Transitions), PathStep::Index(i as usize), PathStep::Attr(a)]
}

/// The length findings of the first `n` phases.
pub open spec fn phase_findings(phases: Seq<Phase>, n: nat) -> Seq<Finding>
    decreases n,
{
    if n == 0 {
        Seq::empty()
    } else {
        let i = n - 1;
        phase_findings(phases, i as nat) + length_findings(phase_path(i, Attr::Id), phases[i].id@, 1, 64)
            + length_findings(phase_path(i, Attr::Label), phases[i].label@, 1, 100)
    }
}

/// The length findings of the first `n` transitions.
pub open spec fn transition_findings(ts: Seq<Transition>, n: nat) -> Seq<Finding>
    decreases n,
{
    if n == 0 {
        Seq::empty()
    } else {
        let i = n - 1;
        transition_findings(ts, i as nat) + length_findings(transition_path(i, Attr::Name), ts[i].name@, 1, 100)
            + length_findings(transition_path(i, Attr::From), ts[i].from@, 1, 64)
            + length_findings(transition_path(i, Attr::To), ts[i].to@, 1, 64)
    }
}

/// What the graph-integrity rule finds of the transition `t` at position `i`.
pub open spec fn edge_findings(ids: Seq<Seq<char>>, t: Transition, i: int) -> Seq<Finding> {
    (if ids.contains(t.from@) {
        Seq::<Finding>::empty()
    } else {
        seq![Finding { path: transition_path(i, Attr::From), rule: Rule::InvalidTransitionSource, value: t.from@ }]
    }) + if ids.contains(t.to@) {
        Seq::<Finding>::empty()
    } else {
        seq![Finding { path: transition_path(i, Attr::To), rule: Rule::InvalidTransitionTarget, value: t.to@ }]
    }
}

/// The graph-integrity findings of the first `n` transitions against the
/// phase ids `ids`.
pub open spec fn integrity_findings(ids: Seq<Seq<char>>, ts: Seq<Transition>, n: nat) -> Seq<Finding>
    decreases n,
{
    if n == 0 {
        Seq::empty()
    } else {
        integrity_findings(ids, ts, (n - 1) as nat) + edge_findings(ids, ts[n - 1], n - 1)
    }
}

/// What validation finds of a workflow with these parts: the length rules on
/// the workflow, on each phase and on each transition, then the
/// graph-integrity rule on each transition.
pub open spec fn workflow_findings(
    id: Seq<char>,
    name: Seq<char>,
    phases: Seq<Phase>,
    ts: Seq<Transition>,
) -> Seq<Finding> {
    length_findings(id_path(), id, 1, 64) + length_findings(name_path(), name, 1, 100) + phase_findings(
        phases,
        phases.len(),
    ) + transition_findings(ts, ts.len()) + integrity_findings(phase_ids(phases), ts, ts.len())
}

pub open spec fn phase_valid(p: Phase) -> bool {
    length_within(p.id@, 1, 64) && length_within(p.label@, 1, 100)
}

pub open spec fn transition_valid(t: Transition) -> bool {
    length_within(t.name@, 1, 100) && length_within(t.from@, 1, 64) && length_within(t.to@, 1, 64)
}

/// Every transition leaves from and leads to a phase among `phases`.
pub open spec fn edges_resolve(phases: Seq<Phase>, ts: Seq<Transition>) -> bool {
    forall|i: int|
        0 <= i < ts.len() ==> phase_ids(phases).contains(#[trigger] ts[i].from@) && phase_ids(
            phases,
        ).contains(ts[i].to@)
}

/// The first of the first `n` phases whose id is `id`.
pub open spec fn find_phase(phases: Seq<Phase>, id: Seq<char>, n: nat) -> Option<Phase>
    decreases n,
{
    if n == 0 {
        None
    } else {
        match find_phase(phases, id, (n - 1) as nat) {
            Some(p) => Some(p),
            None => if phases[n - 1].id@ == id {
                Some(phases[n - 1])
            } else {
                None
            },
        }
    }
}

/// The first of the first `n` phases of type `Start`.
pub open spec fn find_start(phases: Seq<Phase>, n: nat) -> Option<Phase>
    decreases n,
{
    if n == 0 {
        None
    } else {
        match find_start(phases, (n - 1) as nat) {
            Some(p) => Some(p),
            None => if phases[n - 1].phase_type == PhaseType::Start {
                Some(phases[n - 1])
            } else {
                None
            },
        }
    }
}

/// Whether some transition leads from `current` to `target`.
pub open spec fn has_edge(ts: Seq<Transition>, current: Seq<char>, target: Seq<char>) -> bool {
    exists|i: int| 0 <= i < ts.len() && (#[trigger] ts[i]).from@ == current && ts[i].to@ == target
}

/// A validated workflow: an id of 1 to 64 and a name of 1 to 100 characters,
/// phases and transitions whose own lengths are valid, and transitions that
/// connect phases of this workflow. Only [`WorkflowBuilder::build`] makes one.
#[derive(Debug)]
pub struct WorkflowDefinition {
    id: String,
    name: String,
    phases: Vec<Phase>,
    transitions: Vec<Transition>,
}

/// Queries on a workflow's graph.
pub trait WorkflowGraph {
    spec fn spec_can_transition(&self, current: Seq<char>, target: Seq<char>) -> bool;

    spec fn spec_get_phase(&self, id: Seq<char>) -> Option<Phase>;

    spec fn spec_get_start_phase(&self) -> Option<Phase>;

    /// Whether a transition leads from `current_phase` to `target_phase`.
    fn can_transition(&self, current_phase: &str, target_phase: &str) -> (r: bool)
        ensures
            r == self.spec_can_transition(current_phase@, target_phase@),
    ;

    /// The phase with the given id.
    fn get_phase(&self, phase_id: &str) -> (r: Option<&Phase>)
        ensures
            r is Some <==> self.spec_get_phase(phase_id@) is Some,
            r matches Some(p) ==> self.spec_get_phase(phase_id@) == Some(*p),
    ;

    /// The first phase of type `Start`.
    fn get_start_phase(&self) -> (r: Option<&Phase>)
        ensures
            r is Some <==> self.spec_get_start_phase() is Some,
            r matches Some(p) ==> self.spec_get_start_phase() == Some(*p),
    ;
}

impl WorkflowDefinition {
    #[verifier::type_invariant]
    spec fn inv(&self) -> bool {
        &&& length_within(self.id@, 1, 64)
        &&& length_within(self.name@, 1, 100)
        &&& forall|i: int| 0 <= i < self.phases@.len() ==> phase_valid(#[trigger] self.phases@[i])
        &&& forall|i: int| 0 <= i < self.transitions@.len() ==> transition_valid(#[trigger] self.transitions@[i])
        &&& edges_resolve(self.phases@, self.transitions@)
    }

    pub closed spec fn spec_id(&self) -> Seq<char> {
        self.id@
    }

    pub closed spec fn spec_name(&self) -> Seq<char> {
        self.name@
    }

    pub closed spec fn spec_phases(&self) -> Seq<Phase> {
        self.phases@
    }

    pub closed spec fn spec_transitions(&self) -> Seq<Transition> {
        self.transitions@
    }

    pub fn id(&self) -> (r: &str)
        ensures
            r@ == self.spec_id(),
            1 <= r@.len() <= 64,
    {
        proof {
            use_type_invariant(self);
        }
        self.id.as_str()
    }

    pub fn name(&self) -> (r: &str)
        ensures
            r@ == self.spec_name(),
            1 <= r@.len() <= 100,
    {
        proof {
            use_type_invariant(self);
        }
        self.name.as_str()
    }

    pub fn phases(&self) -> (r: &[Phase])
        ensures
            r@ == self.spec_phases(),
    {
        self.phases.as_slice()
    }

    /// The transitions, each of which connects two phases of this workflow.
    pub fn transitions(&self) -> (r: &[Transition])
        ensures
            r@ == self.spec_transitions(),
            edges_resolve(self.spec_phases(), r@),
    {
        proof {
            use_type_invariant(self);
        }
        self.transitions.as_slice()
    }
}

impl WorkflowGraph for WorkflowDefinition {
    open spec fn spec_can_transition(&self, current: Seq<char>, target: Seq<char>) -> bool {
        has_edge(self.spec_transitions(), current, target)
    }

    open spec fn spec_get_phase(&self, id: Seq<char>) -> Option<Phase> {
        find_phase(self.spec_phases(), id, self.spec_phases().len())
    }

    open spec fn spec_get_start_phase(&self) -> Option<Phase> {
        find_start(self.spec_phases(), self.spec_phases().len())
    }

    fn can_transition(&self, current_phase: &str, target_phase: &str) -> (r: bool) {
        let mut i: usize = 0;
        while i < self.transitions.len()
            invariant
                i <= self.transitions@.len(),
                forall|j: int|
                    0 <= j < i ==> !((#[trigger] self.transitions@[j]).from@ == current_phase@
                        && self.transitions@[j].to@ == target_phase@),
            decreases self.transitions@.len() - i,
        {
            let t = &self.transitions[i];
            if text_eq(t.from.as_str(), current_phase) && text_eq(t.to.as_str(), target_phase) {
                return true;
            }
            i = i + 1;
        }
        false
    }

    fn get_phase(&self, phase_id: &str) -> (r: Option<&Phase>) {
        let mut i: usize = 0;
        while i < self.phases.len()
            invariant
                i <= self.phases@.len(),
                find_phase(self.phases@, phase_id@, i as nat) is None,
            decreases self.phases@.len() - i,
        {
            if text_eq(self.phases[i].id.as_str(), phase_id) {
                proof {
                    lemma_find_phase_stays(self.phases@, phase_id@, (i + 1) as nat, self.phases@.len());
                }
                return Some(&self.phases[i]);
            }
            i = i + 1;
        }
        None
    }

    fn get_start_phase(&self) -> (r: Option<&Phase>) {
        let mut i: usize = 0;
        while i < self.phases.len()
            invariant
                i <= self.phases@.len(),
                find_start(self.phases@, i as nat) is None,
            decreases self.phases@.len() - i,
        {
            if self.phases[i].phase_type == PhaseType::Start {
                proof {
                    lemma_find_start_stays(self.phases@, (i + 1) as nat, self.phases@.len());
                }
                return Some(&self.phases[i]);
            }
            i = i + 1;
        }
        None
    }
}

/// Whether some phase has the id `id`.
fn has_phase(phases: &Vec<Phase>, id: &str) -> (r: bool)
    ensures
        r == phase_ids(phases@).contains(id@),
{
    let mut i: usize = 0;
    while i < phases.len()
        invariant
            i <= phases@.len(),
            forall|j: int| 0 <= j < i ==> (#[trigger] phases@[j]).id@ != id@,
        decreases phases@.len() - i,
    {
        if text_eq(phases[i].id.as_str(), id) {
            assert(phase_ids(phases@)[i as int] == id@);
            return true;
        }
        i = i + 1;
    }
    proof {
        let ids = phase_ids(phases@);
        if ids.contains(id@) {
            let k = choose|k: int| 0 <= k < ids.len() && ids[k] == id@;
            assert(phases@[k].id@ == id@);
        }
    }
    false
}

/// Records a finding for each transition that leaves from or leads to a
/// phase that `phases` does not hold.
fn validate_workflow_integrity(
    findings: &mut Vec<ValidationFinding>,
    phases: &Vec<Phase>,
    transitions: &Vec<Transition>,
)
    ensures
        finding_views(final(findings)@) == finding_views(old(findings)@) + integrity_findings(
            phase_ids(phases@),
            transitions@,
            transitions@.len(),
        ),
{
    let ghost head = finding_views(findings@);
    let ghost ids = phase_ids(phases@);
    let mut i: usize = 0;
    while i < transitions.len()
        invariant
            i <= transitions@.len(),
            ids == phase_ids(phases@),
            finding_views(findings@) == head + integrity_findings(ids, transitions@, i as nat),
        decreases transitions@.len() - i,
    {
        let t = &transitions[i];
        let ghost before = finding_views(findings@);
        if !has_phase(phases, t.from.as_str()) {
            push_finding(findings, path3(Attr::Transitions, i, Attr::From), Rule::InvalidTransitionSource, t.from.as_str());
        }
        if !has_phase(phases, t.to.as_str()) {
            push_finding(findings, path3(Attr::Transitions, i, Attr::To), Rule::InvalidTransitionTarget, t.to.as_str());
        }
        proof {
            assert(finding_views(findings@) =~= before + edge_findings(ids, transitions@[i as int], i as int));
            assert(integrity_findings(ids, transitions@, (i + 1) as nat) =~= integrity_findings(ids, transitions@, i as nat)
                + edge_findings(ids, transitions@[i as int], i as int));
        }
        i = i + 1;
    }
}

proof fn lemma_phases_clean(phases: Seq<Phase>, n: nat)
    requires
        n <= phases.len(),
        phase_findings(phases, n).len() == 0,
    ensures
        forall|i: int| 0 <= i < n ==> phase_valid(#[trigger] phases[i]),
    decreases n,
{
    if n > 0 {
        lemma_phases_clean(phases, (n - 1) as nat);
    }
}

proof fn lemma_transitions_clean(ts: Seq<Transition>, n: nat)
    requires
        n <= ts.len(),
        transition_findings(ts, n).len() == 0,
    ensures
        forall|i: int| 0 <= i < n ==> transition_valid(#[trigger] ts[i]),
    decreases n,
{
    if n > 0 {
        lemma_transitions_clean(ts, (n - 1) as nat);
    }
}

proof fn lemma_integrity_clean(ids: Seq<Seq<char>>, ts: Seq<Transition>, n: nat)
    requires
        n <= ts.len(),
        integrity_findings(ids, ts, n).len() == 0,
    ensures
        forall|i: int| 0 <= i < n ==> ids.contains(#[trigger] ts[i].from@) && ids.contains(ts[i].to@),
    decreases n,
{
    if n > 0 {
        lemma_integrity_clean(ids, ts, (n - 1) as nat);
    }
}

/// An unvalidated draft of a [`WorkflowDefinition`].
#[derive(Clone, Debug)]
pub struct WorkflowBuilder {
    pub id: String,
    pub name: String,
    pub phases: Vec<Phase>,
    pub transitions: Vec<Transition>,
}

impl WorkflowBuilder {
    /// A draft with no phases and no transitions.
    pub fn new(id: &str, name: &str) -> (r: Self)
        ensures
            r.id@ == id@,
            r.name@ == name@,
            r.phases@.len() == 0,
            r.transitions@.len() == 0,
    {
        WorkflowBuilder {
            id: String::from_str(id),
            name: String::from_str(name),
            phases: Vec::new(),
            transitions: Vec::new(),
        }
    }

    /// Appends a phase.
    pub fn add_phase(self, phase: Phase) -> (r: Self)
        ensures
            r.id@ == self.id@,
            r.name@ == self.name@,
            r.phases@ == self.phases@.push(phase),
            r.transitions@ == self.transitions@,
    {
        let mut b = self;
        b.phases.push(phase);
        b
    }

    /// Appends a transition.
    pub fn add_transition(self, transition: Transition) -> (r: Self)
        ensures
            r.id@ == self.id@,
            r.name@ == self.name@,
            r.phases@ == self.phases@,
            r.transitions@ == self.transitions@.push(transition),
    {
        let mut b = self;
        b.transitions.push(transition);
        b
    }

    /// The validated workflow, or every finding against the draft: those of
    /// the length rules and those of the graph-integrity rule together.
    pub fn build(self) -> (r: Result<WorkflowDefinition, ValidationErrors>)
        ensures
            r is Ok <==> workflow_findings(self.id@, self.name@, self.phases@, self.transitions@).len() == 0,
            r matches Ok(d) ==> {
                &&& d.spec_id() == self.id@
                &&& d.spec_name() == self.name@
                &&& d.spec_phases() == self.phases@
                &&& d.spec_transitions() == self.transitions@
            },
            r matches Err(e) ==> e@ == workflow_findings(self.id@, self.name@, self.phases@, self.transitions@),
    {
        let mut findings: Vec<ValidationFinding> = Vec::new();
        check_length(&mut findings, path1(Attr::Id), self.id.as_str(), 1, 64);
        check_length(&mut findings, path1(Attr::Name), self.name.as_str(), 1, 100);
        let ghost head = finding_views(findings@);
        let mut i: usize = 0;
        while i < self.phases.len()
            invariant
                i <= self.phases@.len(),
                finding_views(findings@) == head + phase_findings(self.phases@, i as nat),
            decreases self.phases@.len() - i,
        {
            let p = &self.phases[i];
            check_length(&mut findings, path3(Attr::Phases, i, Attr::Id), p.id.as_str(), 1, 64);
            check_length(&mut findings, path3(Attr::Phases, i, Attr::Label), p.label.as_str(), 1, 100);
            proof {
                assert(finding_views(findings@) =~= head + phase_findings(self.phases@, (i + 1) as nat));
            }
            i = i + 1;
        }
        let ghost head2 = finding_views(findings@);
        let mut k: usize = 0;
        while k < self.transitions.len()
            invariant
                k <= self.transitions@.len(),
                finding_views(findings@) == head2 + transition_findings(self.transitions@, k as nat),
            decreases self.transitions@.len() - k,
        {
            let t = &self.transitions[k];
            check_length(&mut findings, path3(Attr::Transitions, k, Attr::Name), t.name.as_str(), 1, 100);
            check_length(&mut findings, path3(Attr::Transitions, k, Attr::From), t.from.as_str(), 1, 64);
            check_length(&mut findings, path3(Attr::Transitions, k, Attr::To), t.to.as_str(), 1, 64);
            proof {
                assert(finding_views(findings@) =~= head2 + transition_findings(self.transitions@, (k + 1) as nat));
            }
            k = k + 1;
        }
        validate_workflow_integrity(&mut findings, &self.phases, &self.transitions);
        let ghost all = workflow_findings(self.id@, self.name@, self.phases@, self.transitions@);
        assert(finding_views(findings@) =~= all);
        if findings.len() == 0 {
            proof {
                let a = length_findings(id_path(), self.id@, 1, 64);
                let b = length_findings(name_path(), self.name@, 1, 100);
                let c = phase_findings(self.phases@, self.phases@.len());
                let d = transition_findings(self.transitions@, self.transitions@.len());
                let e = integrity_findings(phase_ids(self.phases@), self.transitions@, self.transitions@.len());
                assert(all == a + b + c + d + e);
                assert(a.len() == 0 && b.len() == 0 && c.len() == 0 && d.len() == 0 && e.len() == 0);
                lemma_phases_clean(self.phases@, self.phases@.len());
                lemma_transitions_clean(self.transitions@, self.transitions@.len());
                lemma_integrity_clean(phase_ids(self.phases@), self.transitions@, self.transitions@.len());
            }
            Ok(
                WorkflowDefinition {
                    id: self.id,
                    name: self.name,
                    phases: self.phases,
                    transitions: self.transitions,
                },
            )
        } else {
            Err(ValidationErrors { findings })
        }
    }
}

proof fn lemma_dangling_found(ids: Seq<Seq<char>>, ts: Seq<Transition>, n: nat, i: int)
    requires
        0 <= i < n <= ts.len(),
    ensures
        !ids.contains(ts[i].from@) ==> exists|k: int|
            0 <= k < integrity_findings(ids, ts, n).len() && (#[trigger] integrity_findings(ids, ts, n)[k])
                == (Finding { path: transition_path(i, Attr::From), rule: Rule::InvalidTransitionSource, value: ts[i].from@ }),
        !ids.contains(ts[i].to@) ==> exists|k: int|
            0 <= k < integrity_findings(ids, ts, n).len() && (#[trigger] integrity_findings(ids, ts, n)[k])
                == (Finding { path: transition_path(i, Attr::To), rule: Rule::InvalidTransitionTarget, value: ts[i].to@ }),
    decreases n,
{
    let prev = integrity_findings(ids, ts, (n - 1) as nat);
    let cur = integrity_findings(ids, ts, n);
    let e = edge_findings(ids, ts[n - 1], n - 1);
    assert(cur == prev + e);
    if i == n - 1 {
        if !ids.contains(ts[i].from@) {
            assert(cur[prev.len() as int] == e[0]);
        }
        if !ids.contains(ts[i].to@) {
            assert(cur[cur.len() - 1] == e[e.len() - 1]);
        }
    } else {
        lemma_dangling_found(ids, ts, (n - 1) as nat, i);
        if !ids.contains(ts[i].from@) {
            let k = choose|k: int| 0 <= k < prev.len() && (#[trigger] prev[k])
                == (Finding { path: transition_path(i, Attr::From), rule: Rule::InvalidTransitionSource, value: ts[i].from@ });
            assert(cur[k] == prev[k]);
        }
        if !ids.contains(ts[i].to@) {
            let k = choose|k: int| 0 <= k < prev.len() && (#[trigger] prev[k])
                == (Finding { path: transition_path(i, Attr::To), rule: Rule::InvalidTransitionTarget, value: ts[i].to@ });
            assert(cur[k] == prev[k]);
        }
    }
}

/// A workflow with a transition that leaves from a phase absent from its phase
/// list draws an `invalid_transition_source` finding for it, and one that
/// leads to such a phase an `invalid_transition_target` finding; either way
/// its builder never yields a workflow.
pub proof fn lemma_dangling_transition_rejected(
    id: Seq<char>,
    name: Seq<char>,
    phases: Seq<Phase>,
    ts: Seq<Transition>,
    i: int,
)
    requires
        0 <= i < ts.len(),
        !phase_ids(phases).contains(ts[i].from@) || !phase_ids(phases).contains(ts[i].to@),
    ensures
        workflow_findings(id, name, phases, ts).len() > 0,
        !phase_ids(phases).contains(ts[i].from@) ==> exists|k: int|
            0 <= k < workflow_findings(id, name, phases, ts).len() && (#[trigger] workflow_findings(id, name, phases, ts)[k])
                == (Finding { path: transition_path(i, Attr::From), rule: Rule::InvalidTransitionSource, value: ts[i].from@ }),
        !phase_ids(phases).contains(ts[i].to@) ==> exists|k: int|
            0 <= k < workflow_findings(id, name, phases, ts).len() && (#[trigger] workflow_findings(id, name, phases, ts)[k])
                == (Finding { path: transition_path(i, Attr::To), rule: Rule::InvalidTransitionTarget, value: ts[i].to@ }),
{
    let ids = phase_ids(phases);
    let all = workflow_findings(id, name, phases, ts);
    let head = length_findings(id_path(), id, 1, 64) + length_findings(name_path(), name, 1, 100) + phase_findings(
        phases,
        phases.len(),
    ) + transition_findings(ts, ts.len());
    let tail = integrity_findings(ids, ts, ts.len());
    assert(all == head + tail);
    lemma_dangling_found(ids, ts, ts.len(), i);
    if !ids.contains(ts[i].from@) {
        let k = choose|k: int| 0 <= k < tail.len() && (#[trigger] tail[k])
            == (Finding { path: transition_path(i, Attr::From), rule: Rule::InvalidTransitionSource, value: ts[i].from@ });
        assert(all[head.len() + k] == tail[k]);
    }
    if !ids.contains(ts[i].to@) {
        let k = choose|k: int| 0 <= k < tail.len() && (#[trigger] tail[k])
            == (Finding { path: transition_path(i, Attr::To), rule: Rule::InvalidTransitionTarget, value: ts[i].to@ });
        assert(all[head.len() + k] == tail[k]);
    }
}

proof fn lemma_find_phase_stays(phases: Seq<Phase>, id: Seq<char>, m: nat, n: nat)
    requires
        m <= n <= phases.len(),
        find_phase(phases, id, m) is Some,
    ensures
        find_phase(phases, id, n) == find_phase(phases, id, m),
    decreases n - m,
{
    if m < n {
        lemma_find_phase_stays(phases, id, m, (n - 1) as nat);
    }
}

proof fn lemma_find_start_stays(phases: Seq<Phase>, m: nat, n: nat)
    requires
        m <= n <= phases.len(),
        find_start(phases, m) is Some,
    ensures
        find_start(phases, n) == find_start(phases, m),
    decreases n - m,
{
    if m < n {
        lemma_find_start_stays(phases, m, (n - 1) as nat);
    }
}

} // verus!
