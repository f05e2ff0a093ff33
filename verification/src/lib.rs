//! A static soundness analyzer for programs that mix generics, marker-trait
//! implementations and unsafe operations. It works on a plain-value model of
//! the type-checked program and reports the places where a manual marker
//! implementation, a destructor or an unsafe call relies on something that
//! the declared bounds do not guarantee.

use vstd::prelude::*;
use vstd::string::StringExecFns;

pub mod analysis;
pub mod context;
pub mod ir;
pub mod log;
pub mod paths;
pub mod prelude;
pub mod report;
pub mod sensitive;

use crate::analysis::send_sync_variance::variance_findings;
use crate::analysis::unsafe_dataflow::{dataflow_failures, dataflow_findings};
use crate::analysis::unsafe_destructor::{destructor_failures, destructor_findings};
use crate::analysis::{
    AnalysisError, SendSyncVarianceChecker, UnsafeDataflowChecker, UnsafeDestructorChecker,
};
use crate::context::AnalysisContext;
use crate::ir::Program;
use crate::log::Verbosity;
use crate::paths::PathMatcher;
use crate::report::{drained, views, Finding, FindingView, ReportLevel};
use crate::sensitive::{sensitive_catalog, sensitive_matcher};

verus! {

/// What a run of the analyzer is asked to do.
#[derive(Clone, Copy, Debug, PartialEq, Eq, Structural)]
pub struct RudraConfig {
    pub verbosity: Verbosity,
    pub report_level: ReportLevel,
    pub unsafe_destructor_enabled: bool,
    pub send_sync_variance_enabled: bool,
    pub unsafe_dataflow_enabled: bool,
}

impl Default for RudraConfig {
    fn default() -> (config: Self)
        ensures
            config == (RudraConfig {
                verbosity: Verbosity::Normal,
                report_level: ReportLevel::Info,
                unsafe_destructor_enabled: false,
                send_sync_variance_enabled: true,
                unsafe_dataflow_enabled: true,
            }),
    {
        RudraConfig {
            verbosity: Verbosity::Normal,
            report_level: ReportLevel::Info,
            unsafe_destructor_enabled: false,
            send_sync_variance_enabled: true,
            unsafe_dataflow_enabled: true,
        }
    }
}

/// The variables of the build environment that decide the default sysroot.
#[derive(Debug, PartialEq, Eq)]
pub struct BuildEnv {
    pub rustc_stage: Option<String>,
    pub rustup_home: Option<String>,
    pub multirust_home: Option<String>,
    pub rustup_toolchain: Option<String>,
    pub multirust_toolchain: Option<String>,
    pub rust_sysroot: Option<String>,
}

impl BuildEnv {
    /// The home of the toolchain manager: `rustup_home`, else `multirust_home`.
    pub open spec fn home(self) -> Option<String> {
        if self.rustup_home is Some {
            self.rustup_home
        } else {
            self.multirust_home
        }
    }

    /// The toolchain's name: `rustup_toolchain`, else `multirust_toolchain`.
    pub open spec fn toolchain(self) -> Option<String> {
        if self.rustup_toolchain is Some {
            self.rustup_toolchain
        } else {
            self.multirust_toolchain
        }
    }

    /// Whether the environment says where the sysroot is, or that the
    /// compiler finds it by itself.
    pub open spec fn decides_sysroot(self) -> bool {
        ||| self.rustc_stage is Some
        ||| self.home() is Some && self.toolchain() is Some
        ||| self.rust_sysroot is Some
    }

    /// The default sysroot. There is none in a build that is part of the
    /// compiler's own. Otherwise it is `<home>/toolchains/<toolchain>` where
    /// both are known, and `rust_sysroot` where they are not.
    pub open spec fn sysroot(self) -> Option<Seq<char>> {
        if self.rustc_stage is Some {
            None
        } else if self.home() is Some && self.toolchain() is Some {
            Some(self.home()->0@ + "/toolchains/"@ + self.toolchain()->0@)
        } else if self.rust_sysroot is Some {
            Some(self.rust_sysroot->0@)
        } else {
            None
        }
    }
}

/// Returns the default sysroot that is used if no `--sysroot` flag is set.
pub fn compile_time_sysroot(env: &BuildEnv) -> (sysroot: Option<String>)
    requires
        env.decides_sysroot(),
    ensures
        sysroot is Some <==> env.rustc_stage is None,
        sysroot matches Some(s) ==> env.sysroot() == Some(s@),
{
    if env.rustc_stage.is_some() {
        return None;
    }
    let home = if env.rustup_home.is_some() {
        &env.rustup_home
    } else {
        &env.multirust_home
    };
    let toolchain = if env.rustup_toolchain.is_some() {
        &env.rustup_toolchain
    } else {
        &env.multirust_toolchain
    };
    match (home, toolchain) {
        (Some(home), Some(toolchain)) => {
            let mut sysroot = home.clone();
            sysroot.append("/toolchains/");
            sysroot.append(toolchain.as_str());
            Some(sysroot)
        },
        _ => match &env.rust_sysroot {
            Some(sysroot) => Some(sysroot.clone()),
            None => None,
        },
    }
}

/// Runs one named analysis to its end and hands back what it produced.
pub fn run_analysis<F, R>(name: &str, f: F) -> (result: R) where F: FnOnce() -> R
    requires
        f.requires(()),
    ensures
        f.ensures((), result),
{
    f()
}

/// What the detectors that `config` enables find in `p`, in the order in
/// which they run: destructors, then marker implementations, then dataflow.
pub open spec fn collected(
    p: Program,
    config: RudraConfig,
    catalog: Map<Seq<Seq<char>>, u32>,
) -> Seq<FindingView> {
    let n = p.defs@.len() as int;
    let destructors = if config.unsafe_destructor_enabled {
        destructor_findings(p, catalog, n)
    } else {
        Seq::empty()
    };
    let markers = if config.send_sync_variance_enabled {
        variance_findings(p, n)
    } else {
        Seq::empty()
    };
    let dataflow = if config.unsafe_dataflow_enabled {
        dataflow_findings(p, catalog, n)
    } else {
        Seq::empty()
    };
    destructors + markers + dataflow
}

/// The failures that the detectors that `config` enables meet in `p`, in
/// the order in which they run. The detector of marker implementations
/// meets none.
pub open spec fn failed(
    p: Program,
    config: RudraConfig,
    catalog: Map<Seq<Seq<char>>, u32>,
) -> Seq<AnalysisError> {
    let n = p.defs@.len() as int;
    let destructors = if config.unsafe_destructor_enabled {
        destructor_failures(p, catalog, n)
    } else {
        Seq::empty()
    };
    let dataflow = if config.unsafe_dataflow_enabled {
        dataflow_failures(p, n)
    } else {
        Seq::empty()
    };
    destructors + dataflow
}

/// The report of a run: what the enabled detectors find, cut at the
/// configured severity and put in report order.
pub open spec fn analysis_report(
    p: Program,
    config: RudraConfig,
    catalog: Map<Seq<Seq<char>>, u32>,
) -> Seq<FindingView> {
    drained(collected(p, config, catalog), config.report_level)
}

/// A run is repeatable. The report is a function of the program, the
/// configuration and the catalog alone, so two runs over an unchanged
/// program hand out the same findings in the same order, whatever the
/// caches held when they started.
pub proof fn lemma_analysis_is_repeatable(
    p: Program,
    config: RudraConfig,
    catalog: Map<Seq<Seq<char>>, u32>,
    first: Seq<FindingView>,
    second: Seq<FindingView>,
)
    requires
        first == analysis_report(p, config, catalog),
        second == analysis_report(p, config, catalog),
    ensures
        first == second,
{
}

/// Runs the detectors that `config` enables on the run `ctx`, one after
/// the other, and hands out the report of the run: what `ctx` held before
/// and what the detectors found, cut at the threshold of `ctx`. A failure
/// on one item ends the work on that item only; the failures are recorded
/// in `ctx`, and none of them is a finding.
pub fn run_detectors<'p>(
    ctx: &mut AnalysisContext<'p>,
    config: RudraConfig,
    sensitive: &PathMatcher,
) -> (findings: Vec<Finding>)
    requires
        old(ctx).wf(),
    ensures
        final(ctx).wf(),
        views(findings@) == drained(
            old(ctx).findings() + collected(old(ctx).program(), config, sensitive@),
            old(ctx).report_level(),
        ),
        final(ctx).findings() == Seq::<FindingView>::empty(),
        final(ctx).failures() == old(ctx).failures() + failed(
            old(ctx).program(),
            config,
            sensitive@,
        ),
        old(ctx).continues_to(final(ctx)),
{
    let ghost p = ctx.program();
    let ghost start = ctx.findings();
    if config.unsafe_destructor_enabled {
        let checker = UnsafeDestructorChecker::new(sensitive);
        checker.analyze(ctx);
    }
    if config.send_sync_variance_enabled {
        let checker = SendSyncVarianceChecker::new();
        checker.analyze(ctx);
    }
    if config.unsafe_dataflow_enabled {
        let checker = UnsafeDataflowChecker::new(sensitive);
        checker.analyze(ctx);
    }
    assert(ctx.findings() =~= start + collected(p, config, sensitive@));
    ctx.drain()
}

/// Analyzes `program` with the built-in catalog of sensitive operations.
pub fn analyze(program: &Program, config: RudraConfig) -> (findings: Vec<Finding>)
    ensures
        views(findings@) == analysis_report(*program, config, sensitive_catalog()),
{
    let sensitive = sensitive_matcher();
    analyze_with(program, config, &sensitive)
}

/// Analyzes `program` with the catalog `sensitive`.
pub fn analyze_with(program: &Program, config: RudraConfig, sensitive: &PathMatcher) -> (findings:
    Vec<Finding>)
    ensures
        views(findings@) == analysis_report(*program, config, sensitive@),
{
    let ctx = AnalysisContext::new(program, config.report_level);
    let ghost report = analysis_report(*program, config, sensitive@);
    let detectors = move || -> (findings: Vec<Finding>)
        ensures
            views(findings@) == report,
        {
            let mut ctx = ctx;
            run_detectors(&mut ctx, config, sensitive)
        };
    run_analysis("detectors", detectors)
}

} // verus!
