//! The configuration space of a sweep, the order in which it is walked,
//! and the collecting of one result for each job.

use crate::config::{RunConfig, RunConfigModel};
use crate::event::BenchmarkEvent;
use crate::tabulate::{RunResult, RunResultModel};
use vstd::arithmetic::div_mod::{lemma_fundamental_div_mod, lemma_fundamental_div_mod_converse};
use vstd::prelude::*;

verus! {

/// A configuration space: the values that each part of a job may take.
pub struct Space {
    pub containers: Seq<Seq<char>>,
    pub gpus: Seq<u32>,
    pub nets: Seq<Seq<char>>,
    pub batch_sizes: Seq<u32>,
}

impl Space {
    /// Number of jobs in the space.
    pub open spec fn size(self) -> nat {
        self.containers.len() * self.gpus.len() * self.nets.len() * self.batch_sizes.len()
    }

    /// Whether the four numbers each name a value of their part.
    pub open spec fn holds(self, c: int, g: int, n: int, b: int) -> bool {
        &&& 0 <= c < self.containers.len()
        &&& 0 <= g < self.gpus.len()
        &&& 0 <= n < self.nets.len()
        &&& 0 <= b < self.batch_sizes.len()
    }

    /// The job made of container `c`, device `g`, network `n` and batch
    /// size `b`, each counted from 0 within its part.
    pub open spec fn pick(self, c: int, g: int, n: int, b: int) -> RunConfigModel {
        RunConfigModel {
            container: self.containers[c],
            net: self.nets[n],
            batch_size: self.batch_sizes[b],
            gpu: self.gpus[g],
        }
    }

    /// The place of that job in the grid: batch sizes change fastest, then
    /// networks, then devices, then containers.
    pub open spec fn place(self, c: int, g: int, n: int, b: int) -> int {
        ((c * self.gpus.len() + g) * self.nets.len() + n) * self.batch_sizes.len() + b
    }

    /// The job at place `i` of the grid.
    pub open spec fn at(self, i: int) -> RunConfigModel {
        let batches = self.batch_sizes.len() as int;
        let nets = self.nets.len() as int;
        let gpus = self.gpus.len() as int;
        self.pick(i / batches / nets / gpus, (i / batches / nets) % gpus, (i / batches) % nets, i
            % batches)
    }

    /// All jobs of the space, each once, in the order of their places.
    pub open spec fn grid(self) -> Seq<RunConfigModel> {
        Seq::new(self.size(), |i: int| self.at(i))
    }

    /// Whether no part of the space names a value twice.
    pub open spec fn distinct(self) -> bool {
        &&& self.containers.no_duplicates()
        &&& self.gpus.no_duplicates()
        &&& self.nets.no_duplicates()
        &&& self.batch_sizes.no_duplicates()
    }
}

/// The space made of the given values.
pub open spec fn space_of(
    containers: Seq<Seq<char>>,
    gpus: Seq<u32>,
    nets: Seq<Seq<char>>,
    batch_sizes: Seq<u32>,
) -> Space {
    Space { containers, gpus, nets, batch_sizes }
}

/// Places are counted without gaps and stay within the grid, and the job
/// at a place is the one that the place was computed for.
pub proof fn lemma_place(space: Space, c: int, g: int, n: int, b: int)
    requires
        space.holds(c, g, n, b),
    ensures
        0 <= space.place(c, g, n, b) < space.size(),
        space.at(space.place(c, g, n, b)) == space.pick(c, g, n, b),
        space.grid()[space.place(c, g, n, b)] == space.pick(c, g, n, b),
{
    let containers = space.containers.len() as int;
    let gpus = space.gpus.len() as int;
    let nets = space.nets.len() as int;
    let batches = space.batch_sizes.len() as int;
    let devices = c * gpus + g;
    let networks = devices * nets + n;
    let i = networks * batches + b;
    assert(0 <= devices < containers * gpus) by (nonlinear_arith)
        requires
            0 <= c < containers,
            0 <= g < gpus,
            devices == c * gpus + g,
    ;
    assert(0 <= networks < containers * gpus * nets) by (nonlinear_arith)
        requires
            0 <= devices < containers * gpus,
            0 <= n < nets,
            networks == devices * nets + n,
    ;
    assert(0 <= i < containers * gpus * nets * batches) by (nonlinear_arith)
        requires
            0 <= networks < containers * gpus * nets,
            0 <= b < batches,
            i == networks * batches + b,
    ;
    lemma_fundamental_div_mod_converse(i, batches, networks, b);
    lemma_fundamental_div_mod_converse(networks, nets, devices, n);
    lemma_fundamental_div_mod_converse(devices, gpus, c, g);
}

/// Every place of the grid is the place of one job of the space.
pub proof fn lemma_unplace(space: Space, i: int) -> (parts: (int, int, int, int))
    requires
        0 <= i < space.size(),
    ensures
        space.holds(parts.0, parts.1, parts.2, parts.3),
        space.place(parts.0, parts.1, parts.2, parts.3) == i,
        space.at(i) == space.pick(parts.0, parts.1, parts.2, parts.3),
{
    let containers = space.containers.len() as int;
    let gpus = space.gpus.len() as int;
    let nets = space.nets.len() as int;
    let batches = space.batch_sizes.len() as int;
    assert(containers > 0 && gpus > 0 && nets > 0 && batches > 0) by (nonlinear_arith)
        requires
            0 <= i < containers * gpus * nets * batches,
            containers >= 0,
            gpus >= 0,
            nets >= 0,
            batches >= 0,
    ;
    let networks = i / batches;
    let devices = networks / nets;
    let c = devices / gpus;
    let b = i % batches;
    let n = networks % nets;
    let g = devices % gpus;
    lemma_fundamental_div_mod(i, batches);
    lemma_fundamental_div_mod(networks, nets);
    lemma_fundamental_div_mod(devices, gpus);
    assert(0 <= networks < containers * gpus * nets) by (nonlinear_arith)
        requires
            0 <= i < containers * gpus * nets * batches,
            i == batches * networks + b,
            0 <= b < batches,
    ;
    assert(0 <= devices < containers * gpus) by (nonlinear_arith)
        requires
            0 <= networks < containers * gpus * nets,
            networks == nets * devices + n,
            0 <= n < nets,
    ;
    assert(0 <= c < containers) by (nonlinear_arith)
        requires
            0 <= devices < containers * gpus,
            devices == gpus * c + g,
            0 <= g < gpus,
    ;
    assert(space.place(c, g, n, b) == i) by (nonlinear_arith)
        requires
            space.place(c, g, n, b) == ((c * gpus + g) * nets + n) * batches + b,
            i == batches * networks + b,
            networks == nets * devices + n,
            devices == gpus * c + g,
    ;
    (c, g, n, b)
}

/// How places go on from the end of one part to the start of the next.
proof fn lemma_place_steps(space: Space, c: int, g: int, n: int)
    ensures
        space.place(0, 0, 0, 0) == 0,
        space.place(c, g, n, space.batch_sizes.len() as int) == space.place(c, g, n + 1, 0),
        space.place(c, g, space.nets.len() as int, 0) == space.place(c, g + 1, 0, 0),
        space.place(c, space.gpus.len() as int, 0, 0) == space.place(c + 1, 0, 0, 0),
        space.place(space.containers.len() as int, 0, 0, 0) == space.size(),
{
    let containers = space.containers.len() as int;
    let gpus = space.gpus.len() as int;
    let nets = space.nets.len() as int;
    let batches = space.batch_sizes.len() as int;
    assert(((0 * gpus + 0) * nets + 0) * batches + 0 == 0) by (nonlinear_arith);
    assert(((c * gpus + g) * nets + n) * batches + batches == ((c * gpus + g) * nets + (n + 1))
        * batches + 0) by (nonlinear_arith);
    assert(((c * gpus + g) * nets + nets) * batches + 0 == ((c * gpus + (g + 1)) * nets + 0)
        * batches + 0) by (nonlinear_arith);
    assert(((c * gpus + gpus) * nets + 0) * batches + 0 == (((c + 1) * gpus + 0) * nets + 0)
        * batches + 0) by (nonlinear_arith);
    assert(((containers * gpus + 0) * nets + 0) * batches + 0 == containers * gpus * nets
        * batches) by (nonlinear_arith);
}

/// No omissions: every job that can be made of the values of the space is
/// in the grid.
pub proof fn lemma_grid_complete(space: Space, c: int, g: int, n: int, b: int)
    requires
        space.holds(c, g, n, b),
    ensures
        space.grid().contains(space.pick(c, g, n, b)),
{
    lemma_place(space, c, g, n, b);
}

/// Nothing else: every job of the grid is made of values of the space.
pub proof fn lemma_grid_sound(space: Space, i: int)
    requires
        0 <= i < space.grid().len(),
    ensures
        exists|c: int, g: int, n: int, b: int|
            space.holds(c, g, n, b) && space.grid()[i] == #[trigger] space.pick(c, g, n, b),
{
    let parts = lemma_unplace(space, i);
    assert(space.grid()[i] == space.pick(parts.0, parts.1, parts.2, parts.3));
}

/// No duplicates: where no part of the space names a value twice, no job
/// is in the grid twice.
pub proof fn lemma_grid_distinct(space: Space)
    requires
        space.distinct(),
    ensures
        space.grid().no_duplicates(),
{
    let grid = space.grid();
    assert forall|i: int, j: int| 0 <= i < grid.len() && 0 <= j < grid.len() && i != j implies grid[i]
        != grid[j] by {
        let first = lemma_unplace(space, i);
        let second = lemma_unplace(space, j);
        if grid[i] == grid[j] {
            assert(space.containers[first.0] == space.containers[second.0]);
            assert(space.gpus[first.1] == space.gpus[second.1]);
            assert(space.nets[first.2] == space.nets[second.2]);
            assert(space.batch_sizes[first.3] == space.batch_sizes[second.3]);
            assert(first == second);
        }
    }
}

/// The jobs of a space, each once, in the order of the grid.
pub fn configurations(
    containers: &Vec<String>,
    gpus: &Vec<u32>,
    nets: &Vec<String>,
    batch_sizes: &Vec<u32>,
) -> (configs: Vec<RunConfig>)
    ensures
        configs.deep_view() == space_of(
            containers.deep_view(),
            gpus@,
            nets.deep_view(),
            batch_sizes@,
        ).grid(),
{
    let ghost space = space_of(containers.deep_view(), gpus@, nets.deep_view(), batch_sizes@);
    let mut configs: Vec<RunConfig> = Vec::new();
    let mut c: usize = 0;
    proof {
        lemma_place_steps(space, 0, 0, 0);
    }
    while c < containers.len()
        invariant
            space == space_of(containers.deep_view(), gpus@, nets.deep_view(), batch_sizes@),
            c <= containers.len(),
            configs.len() == space.place(c as int, 0, 0, 0),
            forall|i: int| 0 <= i < configs.len() ==> (#[trigger] configs[i])@ == space.at(i),
        decreases containers.len() - c,
    {
        let mut g: usize = 0;
        while g < gpus.len()
            invariant
                space == space_of(containers.deep_view(), gpus@, nets.deep_view(), batch_sizes@),
                c < containers.len(),
                g <= gpus.len(),
                configs.len() == space.place(c as int, g as int, 0, 0),
                forall|i: int| 0 <= i < configs.len() ==> (#[trigger] configs[i])@ == space.at(i),
            decreases gpus.len() - g,
        {
            let mut n: usize = 0;
            while n < nets.len()
                invariant
                    space == space_of(
                        containers.deep_view(),
                        gpus@,
                        nets.deep_view(),
                        batch_sizes@,
                    ),
                    c < containers.len(),
                    g < gpus.len(),
                    n <= nets.len(),
                    configs.len() == space.place(c as int, g as int, n as int, 0),
                    forall|i: int|
                        0 <= i < configs.len() ==> (#[trigger] configs[i])@ == space.at(i),
                decreases nets.len() - n,
            {
                let mut b: usize = 0;
                while b < batch_sizes.len()
                    invariant
                        space == space_of(
                            containers.deep_view(),
                            gpus@,
                            nets.deep_view(),
                            batch_sizes@,
                        ),
                        c < containers.len(),
                        g < gpus.len(),
                        n < nets.len(),
                        b <= batch_sizes.len(),
                        configs.len() == space.place(c as int, g as int, n as int, b as int),
                        forall|i: int|
                            0 <= i < configs.len() ==> (#[trigger] configs[i])@ == space.at(i),
                    decreases batch_sizes.len() - b,
                {
                    proof {
                        lemma_place(space, c as int, g as int, n as int, b as int);
                    }
                    let config = RunConfig {
                        container: containers[c].clone(),
                        net: nets[n].clone(),
                        batch_size: batch_sizes[b],
                        gpu: gpus[g],
                    };
                    assert(config@ == space.pick(c as int, g as int, n as int, b as int));
                    configs.push(config);
                    b += 1;
                }
                proof {
                    lemma_place_steps(space, c as int, g as int, n as int);
                }
                n += 1;
            }
            proof {
                lemma_place_steps(space, c as int, g as int, 0);
            }
            g += 1;
        }
        proof {
            lemma_place_steps(space, c as int, 0, 0);
        }
        c += 1;
    }
    proof {
        lemma_place_steps(space, 0, 0, 0);
    }
    assert(configs.deep_view() =~= space.grid());
    configs
}

/// `rand::seq::SliceRandom::shuffle` on the jobs, with the generator that
/// `rand::thread_rng` hands out. Which order comes out is a matter of
/// chance; the jobs are swapped about and none is made, lost or changed,
/// so the same jobs are there afterwards, each as often as before. The
/// generator gives up where the system has nothing to seed it with, which
/// no argument decides.
#[verifier::external_body]
fn shuffle(configs: &mut Vec<RunConfig>)
    ensures
        final(configs)@.to_multiset() == old(configs)@.to_multiset(),
{
    rand::seq::SliceRandom::shuffle(configs.as_mut_slice(), &mut rand::thread_rng());
}

/// Sequences of the same items, each as often in one as in the other, are
/// still so after one function is applied to every item.
pub proof fn lemma_same_items_mapped<A, B>(first: Seq<A>, second: Seq<A>, f: spec_fn(A) -> B)
    requires
        first.to_multiset() == second.to_multiset(),
    ensures
        first.map_values(f).to_multiset() == second.map_values(f).to_multiset(),
    decreases first.len(),
{
    broadcast use vstd::seq_lib::group_to_multiset_ensures;

    first.to_multiset_ensures();
    second.to_multiset_ensures();
    if first.len() == 0 {
        assert(second.len() == 0);
        assert(first.map_values(f) =~= second.map_values(f));
    } else {
        let last = first.last();
        let front = first.drop_last();
        assert(first =~= front.push(last));
        assert(first.contains(last));
        assert(second.to_multiset().count(last) > 0);
        assert(second.contains(last));
        let j = choose|j: int| 0 <= j < second.len() && second[j] == last;
        let others = second.remove(j);
        front.to_multiset_ensures();
        assert(front.to_multiset() =~= first.to_multiset().remove(last));
        assert(others.to_multiset() =~= second.to_multiset().remove(last));
        lemma_same_items_mapped(front, others, f);
        assert(first.map_values(f) =~= front.map_values(f).push(f(last)));
        assert(second.map_values(f) =~= others.map_values(f).insert(j, f(last)));
        front.map_values(f).to_multiset_ensures();
        vstd::seq_lib::to_multiset_insert(others.map_values(f), j, f(last));
    }
}

/// The jobs of a space in the order in which a sweep runs them: an order
/// drawn by chance, with every job of the grid in it as often as in the
/// grid.
pub fn plan_sweep(
    containers: &Vec<String>,
    gpus: &Vec<u32>,
    nets: &Vec<String>,
    batch_sizes: &Vec<u32>,
) -> (plan: Vec<RunConfig>)
    ensures
        plan.deep_view().to_multiset() == space_of(
            containers.deep_view(),
            gpus@,
            nets.deep_view(),
            batch_sizes@,
        ).grid().to_multiset(),
{
    let mut plan = configurations(containers, gpus, nets, batch_sizes);
    let ghost before = plan@;
    let ghost ordered = plan.deep_view();
    shuffle(&mut plan);
    proof {
        let model = |config: RunConfig| config@;
        lemma_same_items_mapped(before, plan@, model);
        assert(before.map_values(model) =~= ordered);
        assert(plan@.map_values(model) =~= plan.deep_view());
    }
    plan
}

/// A plan that holds the jobs of a grid, each as often as the grid does,
/// is as long as the grid and holds the same jobs; and where the grid has
/// no job twice, neither has the plan.
pub proof fn lemma_plan_covers(plan: Seq<RunConfigModel>, grid: Seq<RunConfigModel>)
    requires
        plan.to_multiset() == grid.to_multiset(),
    ensures
        plan.len() == grid.len(),
        forall|job: RunConfigModel| plan.contains(job) <==> grid.contains(job),
        grid.no_duplicates() ==> plan.no_duplicates(),
{
    broadcast use vstd::seq_lib::group_to_multiset_ensures;

    plan.to_multiset_ensures();
    grid.to_multiset_ensures();
    assert forall|job: RunConfigModel| plan.contains(job) <==> grid.contains(job) by {
        assert(plan.contains(job) <==> plan.to_multiset().count(job) > 0);
        assert(grid.contains(job) <==> grid.to_multiset().count(job) > 0);
    }
    if grid.no_duplicates() {
        grid.lemma_multiset_has_no_duplicates();
        plan.lemma_multiset_has_no_duplicates_conv();
    }
}

/// A sweep runs each job once. Where no part of the space names a value
/// twice, a plan that holds the jobs of the grid as often as the grid does
/// has as many jobs as the sizes of the parts multiply to, none of them
/// twice, and every job that can be made of the values of the space.
pub proof fn lemma_each_job_once(space: Space, plan: Seq<RunConfigModel>)
    requires
        space.distinct(),
        plan.to_multiset() == space.grid().to_multiset(),
    ensures
        plan.len() == space.containers.len() * space.gpus.len() * space.nets.len()
            * space.batch_sizes.len(),
        plan.no_duplicates(),
        forall|c: int, g: int, n: int, b: int|
            space.holds(c, g, n, b) ==> plan.contains(#[trigger] space.pick(c, g, n, b)),
{
    lemma_grid_distinct(space);
    lemma_plan_covers(plan, space.grid());
    assert forall|c: int, g: int, n: int, b: int| space.holds(c, g, n, b) implies plan.contains(
        #[trigger] space.pick(c, g, n, b),
    ) by {
        lemma_grid_complete(space, c, g, n, b);
    }
}

/// A sweep under way: the jobs in the order in which they are run, and
/// the results of those that are over. Results come in the order of the
/// jobs, one for each.
pub struct Sweep {
    plan: Vec<RunConfig>,
    results: Vec<RunResult>,
}

impl Sweep {
    #[verifier::type_invariant]
    spec fn in_step(self) -> bool {
        &&& self.results.len() <= self.plan.len()
        &&& forall|i: int|
            0 <= i < self.results.len() ==> (#[trigger] self.results[i]).config@ == self.plan[i]@
    }

    /// The jobs, in the order in which they are run.
    pub closed spec fn plan(&self) -> Seq<RunConfigModel> {
        self.plan.deep_view()
    }

    /// The results so far.
    pub closed spec fn results(&self) -> Seq<RunResultModel> {
        self.results.deep_view()
    }

    /// A sweep over the jobs of `plan`, none of them run yet.
    pub fn new(plan: Vec<RunConfig>) -> (sweep: Sweep)
        ensures
            sweep.plan() == plan.deep_view(),
            sweep.results() == Seq::<RunResultModel>::empty(),
    {
        let results: Vec<RunResult> = Vec::new();
        assert(results.deep_view() =~= Seq::<RunResultModel>::empty());
        Sweep { plan, results }
    }

    /// The job to run next, or nothing when every job has its result.
    pub fn next(&self) -> (job: Option<RunConfig>)
        ensures
            self.results().len() <= self.plan().len(),
            match job {
                Some(config) => self.results().len() < self.plan().len() && config@
                    == self.plan()[self.results().len() as int],
                None => self.results().len() == self.plan().len(),
            },
    {
        proof {
            use_type_invariant(self);
        }
        if self.results.len() < self.plan.len() {
            Some(self.plan[self.results.len()].duplicate())
        } else {
            None
        }
    }

    /// Takes in what the job that `next` named gave. Once every job has
    /// its result, nothing more is taken in.
    pub fn record(self, outcome: Result<Vec<BenchmarkEvent>, String>) -> (sweep: Sweep)
        ensures
            sweep.plan() == self.plan(),
            sweep.results() == if self.results().len() < self.plan().len() {
                self.results().push(
                    RunResultModel {
                        config: self.plan()[self.results().len() as int],
                        result: match outcome {
                            Ok(events) => Ok(events.deep_view()),
                            Err(text) => Err(text@),
                        },
                    },
                )
            } else {
                self.results()
            },
    {
        proof {
            use_type_invariant(&self);
        }
        let Sweep { plan, results } = self;
        let mut results = results;
        if results.len() < plan.len() {
            let ghost before = results.deep_view();
            let entry = RunResult { config: plan[results.len()].duplicate(), result: outcome };
            let ghost model = entry@;
            results.push(entry);
            assert(results.deep_view() =~= before.push(model));
        }
        Sweep { plan, results }
    }

    /// The results of the sweep once every job has one: as many as there
    /// are jobs, the result at each place being that of the job at that
    /// place. Nothing while a job is still to be run.
    pub fn finish(self) -> (done: Option<Vec<RunResult>>)
        ensures
            done is Some <==> self.results().len() == self.plan().len(),
            done matches Some(results) ==> {
                &&& results.deep_view() == self.results()
                &&& results.len() == self.plan().len()
                &&& forall|i: int|
                    0 <= i < results.len() ==> (#[trigger] results.deep_view()[i]).config
                        == self.plan()[i]
            },
    {
        proof {
            use_type_invariant(&self);
        }
        if self.results.len() == self.plan.len() {
            Some(self.results)
        } else {
            None
        }
    }
}

} // verus!
