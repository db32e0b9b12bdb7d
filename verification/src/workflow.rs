//! The workflow document: configuration, tasks, edges, the optional
//! external-memory seed and the return-value recipe, with the lookup helpers
//! the interpreter steps through. Edge and task lookup is by the first match
//! on the identifier, case-sensitively.

use vstd::prelude::*;
use crate::atomics::{Config, Edge, Task, TaskOutput};
use crate::memory::{MemoryInputType, idx_of, lemma_idx_of};
use crate::strings::str_eq;

verus! {

/// The source identifiers of a list of edges.
pub open spec fn edge_sources(steps: Seq<Edge>) -> Seq<Seq<char>> {
    Seq::new(steps.len(), |i: int| steps[i].source@)
}

/// The identifiers of a list of tasks.
pub open spec fn task_ids(tasks: Seq<Task>) -> Seq<Seq<char>> {
    Seq::new(tasks.len(), |i: int| tasks[i].id@)
}

/// A container for the tasks and steps that make up a workflow.
pub struct Workflow {
    pub config: Config,
    pub external_memory: Option<Vec<(String, MemoryInputType)>>,
    pub tasks: Vec<Task>,
    pub steps: Vec<Edge>,
    pub return_value: TaskOutput,
}

impl Workflow {
    pub fn new(
        tasks: Vec<Task>,
        steps: Vec<Edge>,
        config: Config,
        external_memory: Option<Vec<(String, MemoryInputType)>>,
        return_value: TaskOutput,
    ) -> (r: Workflow)
        ensures
            r.spec_tasks() == tasks@,
            r.spec_steps() == steps@,
            r.spec_config() == config,
            r.external_memory == external_memory,
            r.spec_return_value() == return_value,
    {
        Workflow { config, external_memory, tasks, steps, return_value }
    }

    /// The configuration of the workflow.
    pub fn get_config(&self) -> (r: &Config)
        ensures
            *r == self.spec_config(),
    {
        &self.config
    }

    /// The tasks of the workflow.
    pub fn get_tasks(&self) -> (r: &Vec<Task>)
        ensures
            r@ == self.spec_tasks(),
    {
        &self.tasks
    }

    /// The edges of the workflow.
    pub fn get_workflow(&self) -> (r: &Vec<Edge>)
        ensures
            r@ == self.spec_steps(),
    {
        &self.steps
    }

    /// The return-value recipe of the workflow.
    pub fn get_return_value(&self) -> (r: &TaskOutput)
        ensures
            *r == self.spec_return_value(),
    {
        &self.return_value
    }

    /// The tasks, for spec use.
    pub open spec fn spec_tasks(&self) -> Seq<Task> {
        self.tasks@
    }

    /// The edges, for spec use.
    pub open spec fn spec_steps(&self) -> Seq<Edge> {
        self.steps@
    }

    /// The configuration, for spec use.
    pub open spec fn spec_config(&self) -> Config {
        self.config
    }

    /// The return-value recipe, for spec use.
    pub open spec fn spec_return_value(&self) -> TaskOutput {
        self.return_value
    }

    /// The edge at the given position, if any.
    pub fn get_step(&self, index: u32) -> (r: Option<&Edge>)
        ensures
            ({
                if (index as int) < self.spec_steps().len() {
                    r matches Some(e) && *e == self.spec_steps()[index as int]
                } else {
                    r is None
                }
            }),
    {
        if (index as usize) < self.steps.len() {
            Some(&self.steps[index as usize])
        } else {
            None
        }
    }

    /// The position of the first edge whose source is `task_id`, if any.
    pub fn get_step_index_by_id(&self, task_id: &str) -> (r: Option<usize>)
        ensures
            ({
                let idx = idx_of(edge_sources(self.spec_steps()), task_id@, 0);
                match r {
                    Some(i) => idx == i as int && (i as int) < self.spec_steps().len(),
                    None => idx == -1,
                }
            }),
    {
        let ghost ks = edge_sources(self.steps@);
        proof {
            lemma_idx_of(ks, task_id@, 0);
        }
        let n = self.steps.len();
        let mut i: usize = 0;
        while i < n
            invariant
                ks == edge_sources(self.steps@),
                n == self.steps@.len(),
                i <= n,
                forall|j: int| 0 <= j < i ==> ks[j] != task_id@,
            decreases n - i,
        {
            if str_eq(self.steps[i].source.as_str(), task_id) {
                proof {
                    lemma_idx_of(ks, task_id@, 0);
                    let idx = idx_of(ks, task_id@, 0);
                    assert(ks[i as int] == task_id@);
                    if idx == -1 {
                        assert(false);
                    }
                    if idx < i {
                        assert(ks[idx] != task_id@);
                    }
                    if i < idx {
                        assert(ks[i as int] != task_id@);
                    }
                }
                return Some(i);
            }
            i += 1;
        }
        proof {
            lemma_idx_of(ks, task_id@, 0);
            let idx = idx_of(ks, task_id@, 0);
            if idx != -1 {
                assert(ks[idx] != task_id@);
            }
        }
        None
    }

    /// The first edge whose source is `task_id`, if any.
    pub fn get_step_by_id(&self, task_id: &str) -> (r: Option<&Edge>)
        ensures
            ({
                let idx = idx_of(edge_sources(self.spec_steps()), task_id@, 0);
                match r {
                    Some(e) => idx >= 0 && *e == self.spec_steps()[idx],
                    None => idx == -1,
                }
            }),
    {
        match self.get_step_index_by_id(task_id) {
            Some(i) => Some(&self.steps[i]),
            None => None,
        }
    }

    /// The position of the first task whose identifier is `task_id`, if any.
    pub fn get_task_index_by_id(&self, task_id: &str) -> (r: Option<usize>)
        ensures
            ({
                let idx = idx_of(task_ids(self.spec_tasks()), task_id@, 0);
                match r {
                    Some(i) => idx == i as int && (i as int) < self.spec_tasks().len(),
                    None => idx == -1,
                }
            }),
    {
        let ghost ks = task_ids(self.tasks@);
        proof {
            lemma_idx_of(ks, task_id@, 0);
        }
        let n = self.tasks.len();
        let mut i: usize = 0;
        while i < n
            invariant
                ks == task_ids(self.tasks@),
                n == self.tasks@.len(),
                i <= n,
                forall|j: int| 0 <= j < i ==> ks[j] != task_id@,
            decreases n - i,
        {
            if str_eq(self.tasks[i].id.as_str(), task_id) {
                proof {
                    lemma_idx_of(ks, task_id@, 0);
                    let idx = idx_of(ks, task_id@, 0);
                    assert(ks[i as int] == task_id@);
                    if idx == -1 {
                        assert(false);
                    }
                    if idx < i {
                        assert(ks[idx] != task_id@);
                    }
                    if i < idx {
                        assert(ks[i as int] != task_id@);
                    }
                }
                return Some(i);
            }
            i += 1;
        }
        proof {
            lemma_idx_of(ks, task_id@, 0);
            let idx = idx_of(ks, task_id@, 0);
            if idx != -1 {
                assert(ks[idx] != task_id@);
            }
        }
        None
    }

    /// The first task whose identifier is `task_id`, if any.
    pub fn get_tasks_by_id(&self, task_id: &str) -> (r: Option<&Task>)
        ensures
            ({
                let idx = idx_of(task_ids(self.spec_tasks()), task_id@, 0);
                match r {
                    Some(t) => idx >= 0 && *t == self.spec_tasks()[idx],
                    None => idx == -1,
                }
            }),
    {
        match self.get_task_index_by_id(task_id) {
            Some(i) => Some(&self.tasks[i]),
            None => None,
        }
    }
}

} // verus!
