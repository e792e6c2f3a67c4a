use vstd::prelude::*;
use vstd::string::StringExecFns;
use crate::errors::SpeechError;

verus! {

/// The server's configuration, as plain values. Reading it from the
/// environment or a configuration file, and probing the filesystem for the
/// default model locations, happens at the process edge; the resolved path,
/// when one was found, stands in `model_path` (and `cc_rules_path`).
pub struct ServerConfig {
    pub model_path: Option<String>,
    pub cc_rules_path: Option<String>,
    pub dictionary: Vec<String>,
    pub grpc_port: u16,
    pub log_level: String,
}

impl Default for ServerConfig {
    fn default() -> (r: Self)
        ensures
            r.model_path is None,
            r.cc_rules_path is None,
            r.dictionary@ == Seq::<String>::empty(),
            r.grpc_port == 50051,
            r.log_level@ == "info"@,
    {
        ServerConfig {
            model_path: Option::None,
            cc_rules_path: Option::None,
            dictionary: Vec::new(),
            grpc_port: 50051,
            log_level: String::from_str("info"),
        }
    }
}

/// The first of the candidates that exists, as the probe reports existence.
pub open spec fn first_true(ex: Seq<bool>, i: int) -> Option<int>
    decreases ex.len() - i,
{
    if i < 0 || i >= ex.len() {
        Option::None
    } else if ex[i] {
        Option::Some(i)
    } else {
        first_true(ex, i + 1)
    }
}

/// Pick the first candidate location that the filesystem probe found to
/// exist; fails when none exists. The probing itself is the caller's: this
/// function only decides.
pub fn select_first_existing(candidates: &Vec<String>, exists: &Vec<bool>) -> (r: Result<
    String,
    SpeechError,
>)
    requires
        candidates@.len() == exists@.len(),
    ensures
        match first_true(exists@, 0) {
            Option::Some(k) => r matches Ok(p) && p@ == candidates@[k]@,
            Option::None => r == Err::<String, SpeechError>(SpeechError::ResourceMissing),
        },
{
    let mut i: usize = 0;
    while i < candidates.len()
        invariant
            i <= candidates@.len(),
            candidates@.len() == exists@.len(),
            first_true(exists@, 0) == first_true(exists@, i as int),
        decreases candidates@.len() - i,
    {
        if exists[i] {
            return Ok(candidates[i].clone());
        }
        i += 1;
    }
    Err(SpeechError::ResourceMissing)
}

impl ServerConfig {
    /// Merge a file-loaded configuration (`self`) with one from the
    /// environment: the environment's settings win wherever it set one.
    pub fn merge_with_env(self, env_config: Self) -> (r: Self)
        ensures
            r.model_path == (if env_config.model_path is Some {
                env_config.model_path
            } else {
                self.model_path
            }),
            r.cc_rules_path == (if env_config.cc_rules_path is Some {
                env_config.cc_rules_path
            } else {
                self.cc_rules_path
            }),
            r.dictionary == (if env_config.dictionary@.len() == 0 {
                self.dictionary
            } else {
                env_config.dictionary
            }),
            r.grpc_port == env_config.grpc_port,
            r.log_level == env_config.log_level,
    {
        let model_path = match env_config.model_path {
            Option::Some(p) => Option::Some(p),
            Option::None => self.model_path,
        };
        let cc_rules_path = match env_config.cc_rules_path {
            Option::Some(p) => Option::Some(p),
            Option::None => self.cc_rules_path,
        };
        let dictionary = if env_config.dictionary.len() == 0 {
            self.dictionary
        } else {
            env_config.dictionary
        };
        ServerConfig {
            model_path,
            cc_rules_path,
            dictionary,
            grpc_port: env_config.grpc_port,
            log_level: env_config.log_level,
        }
    }

    /// The locations to probe for the recognition model: the configured path
    /// first, then the packaged resource directories.
    pub fn model_path_candidates(&self) -> (r: Vec<String>)
        ensures
            match self.model_path {
                Option::Some(p) => r@.len() == 4 && r@[0]@ == p@ && r@[1]@
                    == "resources/parakeet-tdt-0.6b-v3-int8"@ && r@[2]@
                    == "../resources/parakeet-tdt-0.6b-v3-int8"@ && r@[3]@
                    == "_up_/resources/parakeet-tdt-0.6b-v3-int8"@,
                Option::None => r@.len() == 3 && r@[0]@ == "resources/parakeet-tdt-0.6b-v3-int8"@
                    && r@[1]@ == "../resources/parakeet-tdt-0.6b-v3-int8"@ && r@[2]@
                    == "_up_/resources/parakeet-tdt-0.6b-v3-int8"@,
            },
    {
        let mut r: Vec<String> = Vec::new();
        match &self.model_path {
            Option::Some(p) => {
                r.push(p.clone());
            },
            Option::None => {
            },
        }
        r.push(String::from_str("resources/parakeet-tdt-0.6b-v3-int8"));
        r.push(String::from_str("../resources/parakeet-tdt-0.6b-v3-int8"));
        r.push(String::from_str("_up_/resources/parakeet-tdt-0.6b-v3-int8"));
        r
    }

    /// The locations to probe for the correction rule table.
    pub fn cc_rules_candidates(&self) -> (r: Vec<String>)
        ensures
            match self.cc_rules_path {
                Option::Some(p) => r@.len() == 4 && r@[0]@ == p@ && r@[1]@
                    == "resources/cc-rules"@ && r@[2]@ == "../resources/cc-rules"@ && r@[3]@
                    == "_up_/resources/cc-rules"@,
                Option::None => r@.len() == 3 && r@[0]@ == "resources/cc-rules"@ && r@[1]@
                    == "../resources/cc-rules"@ && r@[2]@ == "_up_/resources/cc-rules"@,
            },
    {
        let mut r: Vec<String> = Vec::new();
        match &self.cc_rules_path {
            Option::Some(p) => {
                r.push(p.clone());
            },
            Option::None => {
            },
        }
        r.push(String::from_str("resources/cc-rules"));
        r.push(String::from_str("../resources/cc-rules"));
        r.push(String::from_str("_up_/resources/cc-rules"));
        r
    }

    /// The resolved recognition model location; fails when none was
    /// configured or found at the edge.
    pub fn get_model_path(&self) -> (r: Result<String, SpeechError>)
        ensures
            match self.model_path {
                Option::Some(p) => r matches Ok(q) && q@ == p@,
                Option::None => r matches Err(e) && e matches SpeechError::EngineUnavailable(m)
                    && m@ == "recognition model not found"@,
            },
    {
        match &self.model_path {
            Option::Some(p) => Ok(p.clone()),
            Option::None => Err(
                SpeechError::EngineUnavailable(String::from_str("recognition model not found")),
            ),
        }
    }

    /// The resolved rule table location; its absence is non-fatal and
    /// reported as a missing resource.
    pub fn get_cc_rules_path(&self) -> (r: Result<String, SpeechError>)
        ensures
            match self.cc_rules_path {
                Option::Some(p) => r matches Ok(q) && q@ == p@,
                Option::None => r == Err::<String, SpeechError>(SpeechError::ResourceMissing),
            },
    {
        match &self.cc_rules_path {
            Option::Some(p) => Ok(p.clone()),
            Option::None => Err(SpeechError::ResourceMissing),
        }
    }
}

} // verus!
