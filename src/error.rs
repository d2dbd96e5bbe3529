use vstd::prelude::*;

use crate::model;

verus! {

pub type Result<T> = core::result::Result<T, Error>;

/// Failures of the service as a whole.
#[derive(Debug)]
pub enum Error {
    /// A required setting is not in the environment.
    ConfigMissingEnv(&'static str),
    /// A setting is present but unusable.
    ConfigWrongFormat(&'static str),
    /// A failure of the model layer.
    Model(model::Error),
}

impl From<model::Error> for Error {
    fn from(val: model::Error) -> (r: Self) {
        Self::Model(val)
    }
}

impl vstd::std_specs::convert::FromSpecImpl<model::Error> for Error {
    open spec fn obeys_from_spec() -> bool {
        true
    }

    open spec fn from_spec(val: model::Error) -> Self {
        Error::Model(val)
    }
}

/// The value of setting `name`, which must be present and non-empty.
pub fn required_setting(name: &'static str, value: Option<String>) -> (r: Result<String>)
    ensures
        match value {
            Some(v) => if v@.len() > 0 {
                r is Ok && r->Ok_0@ == v@
            } else {
                r == Err::<String, Error>(Error::ConfigWrongFormat(name))
            },
            None => r == Err::<String, Error>(Error::ConfigMissingEnv(name)),
        },
{
    match value {
        Some(v) => {
            if crate::json::text_is(&v, "") {
                proof {
                    reveal_strlit("");
                    assert(""@.len() == 0);
                }
                Err(Error::ConfigWrongFormat(name))
            } else {
                proof {
                    reveal_strlit("");
                    assert(""@.len() == 0);
                    assert(v@ != ""@);
                    if v@.len() == 0 {
                        assert(v@ =~= ""@);
                    }
                }
                Ok(v)
            }
        },
        None => Err(Error::ConfigMissingEnv(name)),
    }
}

} // verus!
