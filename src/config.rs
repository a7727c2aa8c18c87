use vstd::prelude::*;
use vstd::string::StrSliceExecFns;

verus! {

/// Whether `s` holds exactly the characters of `lit`.
pub fn str_equals(s: &str, lit: &str) -> (r: bool)
    ensures
        r == (s@ == lit@),
{
    let n = s.unicode_len();
    if n != lit.unicode_len() {
        return false;
    }
    let mut i: usize = 0;
    while i < n
        invariant
            n == s@.len(),
            n == lit@.len(),
            0 <= i <= n,
            forall|j: int| 0 <= j < i ==> s@[j] == lit@[j],
        decreases n - i,
    {
        if s.get_char(i) != lit.get_char(i) {
            return false;
        }
        i = i + 1;
    }
    assert(s@ =~= lit@);
    true
}

/// How a pixel's incident radiance is evaluated.
#[derive(Clone, Copy, Debug, PartialEq, Eq, Structural)]
pub enum Integrator {
    /// Full unidirectional path tracing (`"pt"`).
    PathTracing,
    /// Path tracing with next-event estimation (`"pt-direct"`).
    PathTracingDirect,
}

impl Integrator {
    pub open spec fn from_name_spec(name: &str) -> Option<Integrator> {
        if name@ == "pt"@ {
            Some(Integrator::PathTracing)
        } else if name@ == "pt-direct"@ {
            Some(Integrator::PathTracingDirect)
        } else {
            None
        }
    }

    pub open spec fn from_config_spec(name: Option<&str>) -> Option<Integrator> {
        match name {
            None => Some(Integrator::PathTracingDirect),
            Some(n) => Integrator::from_name_spec(n),
        }
    }

    /// The integrator a name selects; `None` for an unknown name.
    pub fn from_name(name: &str) -> (r: Option<Integrator>)
        ensures
            r == Integrator::from_name_spec(name),
    {
        proof {
            reveal_strlit("pt");
            reveal_strlit("pt-direct");
            assert("pt"@.len() != "pt-direct"@.len());
        }
        if str_equals(name, "pt") {
            Some(Integrator::PathTracing)
        } else if str_equals(name, "pt-direct") {
            Some(Integrator::PathTracingDirect)
        } else {
            None
        }
    }

    /// The integrator a configuration selects: next-event estimation when
    /// none is named.
    pub fn from_config(name: Option<&str>) -> (r: Option<Integrator>)
        ensures
            r == Integrator::from_config_spec(name),
    {
        match name {
            None => Some(Integrator::PathTracingDirect),
            Some(n) => Integrator::from_name(n),
        }
    }
}

/// The encoding of the saved image.
#[derive(Clone, Copy, Debug, PartialEq, Eq, Structural)]
pub enum OutputFormat {
    /// High dynamic range floats, written unchanged (`"hdr"`).
    Hdr,
    /// Eight-bit integers after a gamma curve (`"png"`).
    Png,
}

impl OutputFormat {
    pub open spec fn from_name_spec(name: &str) -> Option<OutputFormat> {
        if name@ == "hdr"@ {
            Some(OutputFormat::Hdr)
        } else if name@ == "png"@ {
            Some(OutputFormat::Png)
        } else {
            None
        }
    }

    /// The format a name selects; `None` for an unsupported one.
    pub fn from_name(name: &str) -> (r: Option<OutputFormat>)
        ensures
            r == OutputFormat::from_name_spec(name),
    {
        proof {
            reveal_strlit("hdr");
            reveal_strlit("png");
            assert("hdr"@[0] != "png"@[0]);
        }
        if str_equals(name, "hdr") {
            Some(OutputFormat::Hdr)
        } else if str_equals(name, "png") {
            Some(OutputFormat::Png)
        } else {
            None
        }
    }

    /// Whether a gamma curve is applied before encoding.
    pub fn applies_gamma(&self) -> (r: bool)
        ensures
            r == (*self == OutputFormat::Png),
    {
        match self {
            OutputFormat::Hdr => false,
            OutputFormat::Png => true,
        }
    }
}

/// Number of worker threads for a configured count: the configured one when
/// positive, otherwise the number of available execution units.
pub fn select_worker_count(configured: usize, available: usize) -> (r: usize)
    ensures
        configured > 0 ==> r == configured,
        configured == 0 ==> r == available,
{
    if configured > 0 {
        configured
    } else {
        available
    }
}

/// Relies on num_cpus::get: the number of logical CPUs available to this
/// process, documented to be at least 1.
#[verifier::external_body]
fn available_cpus() -> (r: usize)
    ensures
        r >= 1,
{
    num_cpus::get()
}

/// Size of the worker pool: the configured count when positive, otherwise
/// the host's available execution units (at least one either way).
pub fn worker_count(configured: usize) -> (r: usize)
    ensures
        configured > 0 ==> r == configured,
        r >= 1,
{
    let available = available_cpus();
    select_worker_count(configured, available)
}

/// A configuration that cannot be rendered.
#[derive(Clone, Copy, Debug, PartialEq, Eq, Structural)]
pub enum ConfigError {
    /// The integrator name is neither `"pt"` nor `"pt-direct"`.
    UnknownIntegrator,
    /// The output format is neither `"hdr"` nor `"png"`.
    UnsupportedFormat,
    /// The sample count is zero.
    NoSamples,
    /// The image has more pixels than fit in memory's index range.
    TooLarge,
}

/// Everything a render needs decided before any job is dispatched.
#[derive(Clone, Copy, Debug, PartialEq, Eq, Structural)]
pub struct RenderPlan {
    pub width: usize,
    pub height: usize,
    pub spp: usize,
    pub workers: usize,
    pub integrator: Integrator,
    pub format: OutputFormat,
}

pub open spec fn integrator_known(name: Option<&str>) -> bool {
    match name {
        None => true,
        Some(n) => n@ == "pt"@ || n@ == "pt-direct"@,
    }
}

pub open spec fn format_known(name: &str) -> bool {
    name@ == "hdr"@ || name@ == "png"@
}

/// Validates a render configuration up front, so that a bad one fails once,
/// before any work starts. Checks the integrator, then the output format,
/// then the sample count, then the image size.
pub fn plan_render(
    width: usize,
    height: usize,
    spp: usize,
    threads: usize,
    integrator: Option<&str>,
    format: &str,
) -> (r: Result<RenderPlan, ConfigError>)
    ensures
        !integrator_known(integrator) ==> r == Err::<RenderPlan, ConfigError>(ConfigError::UnknownIntegrator),
        integrator_known(integrator) && !format_known(format)
            ==> r == Err::<RenderPlan, ConfigError>(ConfigError::UnsupportedFormat),
        integrator_known(integrator) && format_known(format) && spp == 0
            ==> r == Err::<RenderPlan, ConfigError>(ConfigError::NoSamples),
        integrator_known(integrator) && format_known(format) && spp > 0 && width * height > usize::MAX
            ==> r == Err::<RenderPlan, ConfigError>(ConfigError::TooLarge),
        integrator_known(integrator) && format_known(format) && spp > 0 && width * height <= usize::MAX
            ==> r is Ok,
        r matches Ok(plan) ==> {
            &&& plan.width == width
            &&& plan.height == height
            &&& plan.spp == spp
            &&& plan.workers >= 1
            &&& (threads > 0 ==> plan.workers == threads)
            &&& Some(plan.integrator) == Integrator::from_config_spec(integrator)
            &&& Some(plan.format) == OutputFormat::from_name_spec(format)
        },
{
    let chosen = match Integrator::from_config(integrator) {
        Some(i) => i,
        None => return Err(ConfigError::UnknownIntegrator),
    };
    let out = match OutputFormat::from_name(format) {
        Some(f) => f,
        None => return Err(ConfigError::UnsupportedFormat),
    };
    if spp == 0 {
        return Err(ConfigError::NoSamples);
    }
    if height > 0 && width > usize::MAX / height {
        assert(width * height > usize::MAX) by (nonlinear_arith)
            requires height > 0, width > usize::MAX / height;
        return Err(ConfigError::TooLarge);
    }
    assert(width * height <= usize::MAX) by (nonlinear_arith)
        requires height == 0 || width <= usize::MAX / height;
    let workers = worker_count(threads);
    Ok(RenderPlan { width, height, spp, workers, integrator: chosen, format: out })
}

} // verus!
