use vstd::prelude::*;
use crate::dto::SecretObject;
use crate::strutil::pairs_map;
use crate::strutil::pairs_lookup;

verus! {

/// Why a secret reference could not be resolved.
#[derive(Debug, Clone, PartialEq, Eq)]
pub enum SecretError {
    /// The named process environment variable was absent from the snapshot.
    MissingEnvironmentVariable { variable_name: String },
    /// Managed-secret stores are not implemented; resolution always fails.
    UnsupportedBackend { secret_name: String, key: String },
}

/// Mathematical image of `SecretError`, with string fields as char sequences.
pub ghost enum SecretErrorModel {
    MissingEnvironmentVariable { variable_name: Seq<char> },
    UnsupportedBackend { secret_name: Seq<char>, key: Seq<char> },
}

impl View for SecretError {
    type V = SecretErrorModel;

    open spec fn view(&self) -> SecretErrorModel {
        match self {
            SecretError::MissingEnvironmentVariable { variable_name } => (
                SecretErrorModel::MissingEnvironmentVariable { variable_name: variable_name@ }
            ),
            SecretError::UnsupportedBackend { secret_name, key } => (
                SecretErrorModel::UnsupportedBackend { secret_name: secret_name@, key: key@ }
            ),
        }
    }
}

/// Resolves secret references against an environment snapshot taken by the
/// caller at process start; resolution is a pure lookup, with no retries.
pub struct SecretResolver {
    pub env: Vec<(String, String)>,
}

impl SecretResolver {
    pub fn new(env: Vec<(String, String)>) -> (r: Self)
        ensures
            r.env == env,
    {
        SecretResolver { env }
    }

    /// What resolution returns for each secret variant: a literal's value
    /// verbatim (encrypted or not), an environment variable's value from the
    /// snapshot, and a failure for the managed-secret backend.
    pub open spec fn spec_resolve(self, secret: SecretObject) -> Result<Seq<char>, SecretErrorModel> {
        match secret {
            SecretObject::Literal { value, encrypted } => Ok(value@),
            SecretObject::Environment { variable_name } => {
                if pairs_map(self.env@).contains_key(variable_name@) {
                    Ok(pairs_map(self.env@)[variable_name@])
                } else {
                    Err(SecretErrorModel::MissingEnvironmentVariable { variable_name: variable_name@ })
                }
            },
            SecretObject::Kubernetes { secret_name, key, namespace } => {
                Err(SecretErrorModel::UnsupportedBackend { secret_name: secret_name@, key: key@ })
            },
        }
    }

    /// True for a literal marked encrypted: decryption is unimplemented and the
    /// value is returned as-is, which callers must surface as a warning.
    pub open spec fn spec_encrypted_literal(secret: SecretObject) -> bool {
        match secret {
            SecretObject::Literal { value, encrypted } => encrypted == Some(true),
            _ => false,
        }
    }

    pub fn is_encrypted_literal(secret: &SecretObject) -> (r: bool)
        ensures
            r == Self::spec_encrypted_literal(*secret),
    {
        match secret {
            SecretObject::Literal { value, encrypted } => {
                match encrypted {
                    Some(b) => *b,
                    None => false,
                }
            },
            _ => false,
        }
    }

    pub fn resolve_secret(&self, secret: &SecretObject) -> (r: Result<String, SecretError>)
        ensures
            r is Ok <==> self.spec_resolve(*secret) is Ok,
            r is Ok ==> r->Ok_0@ == self.spec_resolve(*secret)->Ok_0,
            r is Err ==> r->Err_0@ == self.spec_resolve(*secret)->Err_0,
    {
        match secret {
            SecretObject::Literal { value, encrypted } => Ok(value.clone()),
            SecretObject::Environment { variable_name } => {
                match pairs_lookup(&self.env, variable_name.as_str()) {
                    Some(v) => Ok(v),
                    None => Err(SecretError::MissingEnvironmentVariable {
                        variable_name: variable_name.clone(),
                    }),
                }
            },
            SecretObject::Kubernetes { secret_name, key, namespace } => {
                Err(SecretError::UnsupportedBackend {
                    secret_name: secret_name.clone(),
                    key: key.clone(),
                })
            },
        }
    }
}

} // verus!
