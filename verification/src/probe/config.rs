//! Stream definitions as configured, and their validation.

use crate::probe::pattern::compiled;
use regex::Error;
use regex::Regex;
use vstd::prelude::*;

verus! {

/// Why a configuration is refused.
#[derive(Debug)]
pub enum ConfigError {
    /// The pattern of the named probe does not compile.
    InvalidRegex { probe_name: String, source: Error },
    /// Two probes carry this name.
    DuplicateProbeName { name: String },
}

/// A `ConfigError` with its strings as character sequences.
pub enum ConfigFault {
    InvalidRegex { probe_name: Seq<char>, source: Error },
    DuplicateProbeName { name: Seq<char> },
}

impl View for ConfigError {
    type V = ConfigFault;

    open spec fn view(&self) -> ConfigFault {
        match *self {
            ConfigError::InvalidRegex { probe_name, source } => ConfigFault::InvalidRegex {
                probe_name: probe_name@,
                source,
            },
            ConfigError::DuplicateProbeName { name } => ConfigFault::DuplicateProbeName {
                name: name@,
            },
        }
    }
}

/// Command-line settings of the dashboard.
#[derive(Debug)]
pub struct Cli {
    /// Time in milliseconds between two ticks.
    pub tick_rate: u64,
    /// Path of the configuration file.
    pub config: String,
}

impl Default for Cli {
    /// A tick every second and the configuration file `probe.toml`.
    fn default() -> (cli: Cli)
        ensures
            cli.tick_rate == 1000,
            cli.config@ == "probe.toml"@,
    {
        Cli { tick_rate: 1000, config: "probe.toml".to_owned() }
    }
}

/// The configured streams, in display order.
#[derive(Debug)]
pub struct Probes {
    pub probes: Vec<ProbeConfig>,
}

/// One stream: its name, its match pattern if any, and the address it is
/// read from.
#[derive(Debug)]
pub struct ProbeConfig {
    pub name: String,
    pub filter: Option<String>,
    pub address: String,
}

impl Clone for ProbeConfig {
    /// A definition with the same name, pattern and address.
    fn clone(&self) -> (res: Self)
        ensures
            res == *self,
    {
        ProbeConfig {
            name: self.name.clone(),
            filter: match &self.filter {
                Some(f) => Some(f.clone()),
                None => None,
            },
            address: self.address.clone(),
        }
    }
}

impl ProbeConfig {
    /// The pattern that validation compiles: the one supplied, or `.*`
    /// where the definition supplies none.
    pub open spec fn checked_pattern(self) -> Seq<char> {
        match self.filter {
            Some(f) => f@,
            None => ".*"@,
        }
    }

    /// The fault of this definition taken alone: a pattern that does not
    /// compile.
    pub open spec fn pattern_fault(self) -> Option<ConfigFault> {
        match compiled(self.checked_pattern()) {
            Ok(_) => None,
            Err(e) => Some(ConfigFault::InvalidRegex { probe_name: self.name@, source: e }),
        }
    }

    /// The verdict on this definition, given what compiling its pattern
    /// gave: a refusal of the pattern is reported under the probe's name.
    pub fn verdict(&self, outcome: Result<Regex, Error>) -> (res: Result<(), ConfigError>)
        ensures
            match outcome {
                Ok(_) => res is Ok,
                Err(e) => res matches Err(fault) && fault@ == (ConfigFault::InvalidRegex {
                    probe_name: self.name@,
                    source: e,
                }),
            },
    {
        match outcome {
            Ok(_) => Ok(()),
            Err(e) => Err(ConfigError::InvalidRegex { probe_name: self.name.clone(), source: e }),
        }
    }

    /// Compiles the pattern, or `.*` where none is supplied, and reports a
    /// refusal.
    pub fn validate(&self) -> (res: Result<(), ConfigError>)
        ensures
            match res {
                Ok(_) => self.pattern_fault() is None,
                Err(e) => self.pattern_fault() == Some(e@),
            },
    {
        let pattern: &str = match &self.filter {
            Some(f) => f.as_str(),
            None => ".*",
        };
        self.verdict(Regex::new(pattern))
    }
}

/// Whether the name of entry `i` already occurs before it.
pub open spec fn name_repeated(probes: Seq<ProbeConfig>, i: int) -> bool {
    exists|j: int| 0 <= j < i && #[trigger] probes[j].name@ == probes[i].name@
}

/// The fault of entry `i` within the list: its pattern fault, or else the
/// repetition of an earlier name.
pub open spec fn entry_fault(probes: Seq<ProbeConfig>, i: int) -> Option<ConfigFault> {
    if probes[i].pattern_fault() is Some {
        probes[i].pattern_fault()
    } else if name_repeated(probes, i) {
        Some(ConfigFault::DuplicateProbeName { name: probes[i].name@ })
    } else {
        None
    }
}

/// The fault of the first faulty entry at or after `from`, if there is one.
pub open spec fn first_fault(probes: Seq<ProbeConfig>, from: int) -> Option<ConfigFault>
    decreases probes.len() - from,
{
    if from < 0 || from >= probes.len() {
        None
    } else if entry_fault(probes, from) is Some {
        entry_fault(probes, from)
    } else {
        first_fault(probes, from + 1)
    }
}

/// A list without fault: every pattern compiles and no name occurs twice.
pub open spec fn valid_config(probes: Seq<ProbeConfig>) -> bool {
    &&& forall|i: int|
        0 <= i < probes.len() ==> compiled((#[trigger] probes[i]).checked_pattern()) is Ok
    &&& forall|i: int, j: int|
        0 <= i < j < probes.len() ==> (#[trigger] probes[i]).name@ != (#[trigger] probes[j]).name@
}

impl Probes {
    /// Checks the definitions in order and reports the first fault: for each
    /// entry its pattern first, then its name against the entries before it.
    pub fn validate(&self) -> (res: Result<(), ConfigError>)
        ensures
            match res {
                Ok(_) => first_fault(self.probes@, 0) is None,
                Err(e) => first_fault(self.probes@, 0) == Some(e@),
            },
            res is Ok <==> valid_config(self.probes@),
    {
        let n: usize = self.probes.len();
        let mut i: usize = 0;
        while i < n
            invariant
                n == self.probes@.len(),
                i <= n,
                first_fault(self.probes@, 0) == first_fault(self.probes@, i as int),
                forall|k: int| 0 <= k < i ==> entry_fault(self.probes@, k) is None,
            decreases n - i,
        {
            let probe = &self.probes[i];
            match probe.validate() {
                Ok(_) => {},
                Err(e) => {
                    proof {
                        lemma_fault_refutes_valid(self.probes@, i as int);
                    }
                    return Err(e);
                },
            }
            if name_seen(&self.probes, i) {
                proof {
                    lemma_fault_refutes_valid(self.probes@, i as int);
                }
                return Err(ConfigError::DuplicateProbeName { name: probe.name.clone() });
            }
            i += 1;
        }
        proof {
            lemma_no_fault_is_valid(self.probes@);
        }
        Ok(())
    }
}

/// Whether the name of entry `i` occurs among the entries before it.
fn name_seen(probes: &Vec<ProbeConfig>, i: usize) -> (seen: bool)
    requires
        i < probes@.len(),
    ensures
        seen == name_repeated(probes@, i as int),
{
    let mut j: usize = 0;
    while j < i
        invariant
            j <= i < probes@.len(),
            forall|k: int| 0 <= k < j ==> (#[trigger] probes@[k]).name@ != probes@[i as int].name@,
        decreases i - j,
    {
        if probes[j].name == probes[i].name {
            return true;
        }
        j += 1;
    }
    false
}

/// A list in which no entry has a fault is valid.
pub proof fn lemma_no_fault_is_valid(probes: Seq<ProbeConfig>)
    requires
        forall|k: int| 0 <= k < probes.len() ==> entry_fault(probes, k) is None,
    ensures
        valid_config(probes),
{
    assert forall|i: int, j: int| 0 <= i < j < probes.len() implies (#[trigger] probes[i]).name@
        != (#[trigger] probes[j]).name@ by {
        assert(entry_fault(probes, j) is None);
        assert(!name_repeated(probes, j));
    }
    assert forall|i: int| 0 <= i < probes.len() implies compiled(
        (#[trigger] probes[i]).checked_pattern(),
    ) is Ok by {
        assert(entry_fault(probes, i) is None);
    }
}

/// A list with a faulty entry is not valid.
pub proof fn lemma_fault_refutes_valid(probes: Seq<ProbeConfig>, i: int)
    requires
        0 <= i < probes.len(),
        entry_fault(probes, i) is Some,
    ensures
        !valid_config(probes),
{
    if probes[i].pattern_fault() is Some {
        assert(compiled(probes[i].checked_pattern()) is Err);
    } else {
        let j = choose|j: int| 0 <= j < i && #[trigger] probes[j].name@ == probes[i].name@;
        assert(probes[j].name@ == probes[i].name@);
    }
}

} // verus!
