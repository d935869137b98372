//! A point of the configuration space, and the command that runs it.

use crate::text::{decimal_text, unsigned_string};
use vstd::prelude::*;

verus! {

/// The program that starts a job.
pub const LAUNCHER: &'static str = "nvidia-docker";

/// The environment variable that selects the device of a job.
pub const GPU_VARIABLE: &'static str = "NV_GPU";

/// One job: the container that holds the benchmark, the network that it
/// trains, the batch size, and the device that it runs on.
#[derive(Clone, Debug, PartialEq, Eq)]
pub struct RunConfig {
    pub container: String,
    pub net: String,
    pub batch_size: u32,
    pub gpu: u32,
}

/// A job as plain values.
pub struct RunConfigModel {
    pub container: Seq<char>,
    pub net: Seq<char>,
    pub batch_size: u32,
    pub gpu: u32,
}

impl View for RunConfig {
    type V = RunConfigModel;

    open spec fn view(&self) -> RunConfigModel {
        RunConfigModel {
            container: self.container@,
            net: self.net@,
            batch_size: self.batch_size,
            gpu: self.gpu,
        }
    }
}

impl DeepView for RunConfig {
    type V = RunConfigModel;

    open spec fn deep_view(&self) -> RunConfigModel {
        self@
    }
}

impl RunConfig {
    /// Whether the two jobs are the same in every part.
    pub fn same_as(&self, other: &RunConfig) -> (same: bool)
        ensures
            same == (self@ == other@),
    {
        let same = self.container == other.container && self.net == other.net && self.batch_size
            == other.batch_size && self.gpu == other.gpu;
        assert(same == (self@ == other@)) by {
            if self.container@ =~= other.container@ && self.net@ =~= other.net@ {
            }
        }
        same
    }

    /// A second value for the same job.
    pub fn duplicate(&self) -> (copy: RunConfig)
        ensures
            copy@ == self@,
    {
        RunConfig {
            container: self.container.clone(),
            net: self.net.clone(),
            batch_size: self.batch_size,
            gpu: self.gpu,
        }
    }
}

/// How to start a job: the program, its arguments in order, and the one
/// environment variable to set for it.
#[derive(Clone, Debug, PartialEq, Eq)]
pub struct LaunchPlan {
    pub program: String,
    pub arguments: Vec<String>,
    pub variable: String,
    pub value: String,
}

/// A start of a job as plain values.
pub struct LaunchPlanModel {
    pub program: Seq<char>,
    pub arguments: Seq<Seq<char>>,
    pub variable: Seq<char>,
    pub value: Seq<char>,
}

impl View for LaunchPlan {
    type V = LaunchPlanModel;

    open spec fn view(&self) -> LaunchPlanModel {
        LaunchPlanModel {
            program: self.program@,
            arguments: self.arguments.deep_view(),
            variable: self.variable@,
            value: self.value@,
        }
    }
}

/// The start of the job `config`: the launcher is asked to run the
/// container, removing it afterwards and keeping its input attached, with
/// the network and the batch size as the container's arguments, and with
/// the device named in the environment.
pub open spec fn plan_of(config: RunConfigModel) -> LaunchPlanModel {
    LaunchPlanModel {
        program: LAUNCHER@,
        arguments: seq![
            "run"@,
            "--rm"@,
            "-i"@,
            config.container,
            config.net,
            decimal_text(config.batch_size as nat),
        ],
        variable: GPU_VARIABLE@,
        value: decimal_text(config.gpu as nat),
    }
}

/// The start of the job `config`.
pub fn launch_plan(config: &RunConfig) -> (plan: LaunchPlan)
    ensures
        plan@ == plan_of(config@),
{
    let mut arguments: Vec<String> = Vec::new();
    arguments.push("run".to_owned());
    arguments.push("--rm".to_owned());
    arguments.push("-i".to_owned());
    arguments.push(config.container.clone());
    arguments.push(config.net.clone());
    arguments.push(unsigned_string(config.batch_size as u64));
    let plan = LaunchPlan {
        program: LAUNCHER.to_owned(),
        arguments,
        variable: GPU_VARIABLE.to_owned(),
        value: unsigned_string(config.gpu as u64),
    };
    assert(plan@.arguments =~= plan_of(config@).arguments);
    plan
}

} // verus!
