//! What the HTTP service holds and decides. Taking requests, handing them
//! to workers and keeping time are left to the program that serves.

use vstd::prelude::*;
use crate::error::{ApiError, Error};
use crate::schema::ConfigKind;
use crate::validator::{CloudConfig, Validation, Validator};

verus! {

/// Whether `response` is the answer of `validator` to a request to
/// validate `payload`: what the validator makes of the payload, where the
/// payload is YAML; else the refusal with status 400 and the parser's
/// message.
pub open spec fn answers(
    validator: Validator,
    payload: Seq<char>,
    response: Result<Validation, ApiError>,
) -> bool {
    match validator.validation(payload) {
        Ok(result) => response matches Ok(validation) && validation@ == result,
        Err(error) => response matches Err(refusal) && refusal.status == error.status()
            && refusal.error@ == error.report(),
    }
}

/// A refusal to validate has status 400: the one error that validating
/// ends in is a payload that is no YAML.
pub proof fn law_refusal_is_a_client_error(validator: Validator, payload: Seq<char>)
    ensures
        validator.validation(payload) matches Err(error) ==> error.status() == 400,
{
}

/// What the service holds: for each kind of document the validator that is
/// in service. A validator is only ever replaced as a whole.
#[derive(Debug)]
pub struct AppState {
    pub cc_validator: Validator,
    pub nc_validator: Validator,
}

impl AppState {
    /// The state of a service that starts with these two validators.
    pub fn new(cc_validator: Validator, nc_validator: Validator) -> (state: AppState)
        ensures
            state.cc_validator == cc_validator,
            state.nc_validator == nc_validator,
    {
        AppState { cc_validator, nc_validator }
    }

    /// The validator that is in service for `kind`.
    pub open spec fn in_service(&self, kind: ConfigKind) -> Validator {
        match kind {
            ConfigKind::CloudConfig => self.cc_validator,
            ConfigKind::NetworkConfig => self.nc_validator,
        }
    }

    /// The validator that is in service for `kind`.
    pub fn validator(&self, kind: ConfigKind) -> (validator: &Validator)
        ensures
            *validator == self.in_service(kind),
    {
        match kind {
            ConfigKind::CloudConfig => &self.cc_validator,
            ConfigKind::NetworkConfig => &self.nc_validator,
        }
    }

    /// The state after one refresh of the validator for `kind`: a validator
    /// that was rebuilt stands in place of the one in service, and a rebuild
    /// that failed changes nothing.
    pub open spec fn refreshed(
        self,
        kind: ConfigKind,
        rebuilt: Result<Validator, Error>,
    ) -> AppState {
        match rebuilt {
            Ok(validator) => match kind {
                ConfigKind::CloudConfig => AppState { cc_validator: validator, ..self },
                ConfigKind::NetworkConfig => AppState { nc_validator: validator, ..self },
            },
            Err(_) => self,
        }
    }

    /// Ends one refresh of the validator for `kind`. A validator that was
    /// rebuilt replaces the one in service. A rebuild that failed changes
    /// nothing: the validator in service stays, and the error is handed
    /// back to be reported.
    pub fn refresh(&mut self, kind: ConfigKind, rebuilt: Result<Validator, Error>) -> (failure:
        Option<Error>)
        ensures
            *final(self) == old(self).refreshed(kind, rebuilt),
            match rebuilt {
                Ok(_) => failure is None,
                Err(error) => failure == Some(error),
            },
    {
        match rebuilt {
            Ok(validator) => {
                match kind {
                    ConfigKind::CloudConfig => {
                        self.cc_validator = validator;
                    },
                    ConfigKind::NetworkConfig => {
                        self.nc_validator = validator;
                    },
                }
                None
            },
            Err(error) => Some(error),
        }
    }

    /// Answers a request to validate `payload` as a document of `kind`,
    /// with the validator that is in service for it. A payload that is not
    /// YAML is answered with status 400 and the parser's message; any other
    /// with the result of its validation.
    pub fn respond(&self, kind: ConfigKind, payload: &CloudConfig) -> (response: Result<
        Validation,
        ApiError,
    >)
        ensures
            answers(self.in_service(kind), payload@, response),
    {
        match self.validator(kind).validate_yaml(payload.payload()) {
            Ok(validation) => Ok(validation),
            Err(error) => Err(ApiError::from(error)),
        }
    }
}

/// Answers a request to validate a cloud-config document, with the
/// cloud-config validator that is in service.
pub fn validate(state: &AppState, payload: &CloudConfig) -> (response: Result<
    Validation,
    ApiError,
>)
    ensures
        answers(state.cc_validator, payload@, response),
{
    state.respond(ConfigKind::CloudConfig, payload)
}

/// Answers a request to validate a network-config document, with the
/// network-config validator that is in service.
pub fn nc_validate(state: &AppState, payload: &CloudConfig) -> (response: Result<
    Validation,
    ApiError,
>)
    ensures
        answers(state.nc_validator, payload@, response),
{
    state.respond(ConfigKind::NetworkConfig, payload)
}

/// Whoever asks for a validator after a refresh finds a whole one: the one
/// that was in service before, or the one that was rebuilt. Nothing else
/// is ever in service.
pub proof fn law_refresh_publishes_whole_validators(
    state: AppState,
    kind: ConfigKind,
    rebuilt: Result<Validator, Error>,
    asked: ConfigKind,
)
    ensures
        state.refreshed(kind, rebuilt).in_service(asked) == state.in_service(asked) || rebuilt
            == Ok::<Validator, Error>(state.refreshed(kind, rebuilt).in_service(asked)),
        rebuilt is Ok ==> rebuilt == Ok::<Validator, Error>(
            state.refreshed(kind, rebuilt).in_service(kind),
        ),
        asked != kind ==> state.refreshed(kind, rebuilt).in_service(asked) == state.in_service(
            asked,
        ),
{
}

/// A refresh that failed leaves the service as it was: every request is
/// still answered by the validator that answered before.
pub proof fn law_failed_refresh_changes_nothing(state: AppState, kind: ConfigKind, error: Error)
    ensures
        state.refreshed(kind, Err(error)) == state,
{
}

} // verus!
