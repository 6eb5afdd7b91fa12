//! Module loading: the `finit_module(2)` flag encoding, the parameter
//! string, and the mapping of the call's raw result to a structured one.
//!
//! The privileged call itself is issued by the surrounding runtime layer; it
//! takes the flags and parameter string computed here and hands the raw
//! return value and error code back to [`load_result`].

use vstd::prelude::*;

use crate::errors::Error;
use crate::errors::ErrorContext;
use crate::params::ModParams;
use crate::params::params_to_string;

verus! {

/// Flag bit telling the kernel to skip the module-version check
/// (`MODULE_INIT_IGNORE_MODVERSIONS` from `<linux/module.h>`).
pub const IGNORE_MODVERSIONS: u32 = 1;

/// Flag bit telling the kernel to skip the version-magic check
/// (`MODULE_INIT_IGNORE_VERMAGIC` from `<linux/module.h>`).
pub const IGNORE_VERMAGIC: u32 = 2;

/// The `finit_module` flag word for a choice of the two independent options:
/// bit 0 for ignoring modversions, bit 1 for ignoring vermagic.
pub open spec fn load_flags(ignore_modversion: bool, ignore_vermagic: bool) -> u32 {
    match (ignore_modversion, ignore_vermagic) {
        (false, false) => 0,
        (true, false) => IGNORE_MODVERSIONS,
        (false, true) => IGNORE_VERMAGIC,
        (true, true) => IGNORE_MODVERSIONS | IGNORE_VERMAGIC,
    }
}

/// The four flag words, concretely: the two bits are independent and
/// additive, bit 0 for ignoring modversions, bit 1 for ignoring vermagic.
pub proof fn lemma_load_flags_table()
    ensures
        load_flags(false, false) == 0,
        load_flags(true, false) == 1,
        load_flags(false, true) == 2,
        load_flags(true, true) == 3,
{
    assert(IGNORE_MODVERSIONS | IGNORE_VERMAGIC == 3u32) by (bit_vector);
}

/// Module loader configuration.
#[derive(Debug)]
pub struct ModLoader {
    ignore_modversion: bool,
    ignore_vermagic: bool,
    params: ModParams,
}

impl ModLoader {
    /// Whether the modversion check is to be skipped.
    pub closed spec fn spec_ignore_modversion(&self) -> bool {
        self.ignore_modversion
    }

    /// Whether the vermagic check is to be skipped.
    pub closed spec fn spec_ignore_vermagic(&self) -> bool {
        self.ignore_vermagic
    }

    /// The parameters to pass at load time.
    pub closed spec fn spec_params(&self) -> ModParams {
        self.params
    }

    /// Well-formed: the parameter map is well-formed.
    pub open spec fn wf(&self) -> bool {
        self.spec_params().wf()
    }

    /// Create a new default `ModLoader`: both checks enforced, no parameters.
    pub fn new() -> (r: Self)
        ensures
            !r.spec_ignore_modversion(),
            !r.spec_ignore_vermagic(),
            r.spec_params().entry_seq() == Seq::<crate::params::ParamEntry>::empty(),
            r.wf(),
    {
        Self::default()
    }

    /// Set whether to avoid checking for a matching modversion.
    pub fn ignore_modversion(self, ignored: bool) -> (r: Self)
        ensures
            r.spec_ignore_modversion() == ignored,
            r.spec_ignore_vermagic() == self.spec_ignore_vermagic(),
            r.spec_params() == self.spec_params(),
    {
        Self { ignore_modversion: ignored, ..self }
    }

    /// Set whether to avoid checking for a matching vermagic.
    pub fn ignore_vermagic(self, ignored: bool) -> (r: Self)
        ensures
            r.spec_ignore_vermagic() == ignored,
            r.spec_ignore_modversion() == self.spec_ignore_modversion(),
            r.spec_params() == self.spec_params(),
    {
        Self { ignore_vermagic: ignored, ..self }
    }

    /// Set module parameters to be used at load time.
    pub fn set_parameters(self, params: ModParams) -> (r: Self)
        ensures
            r.spec_params() == params,
            r.spec_ignore_modversion() == self.spec_ignore_modversion(),
            r.spec_ignore_vermagic() == self.spec_ignore_vermagic(),
    {
        Self { params, ..self }
    }

    /// The `finit_module` flag word this configuration asks for.
    pub fn flags(&self) -> (f: u32)
        ensures
            f == load_flags(self.spec_ignore_modversion(), self.spec_ignore_vermagic()),
    {
        match (self.ignore_modversion, self.ignore_vermagic) {
            (false, false) => 0,
            (true, false) => IGNORE_MODVERSIONS,
            (false, true) => IGNORE_VERMAGIC,
            (true, true) => IGNORE_MODVERSIONS | IGNORE_VERMAGIC,
        }
    }

    /// The serialized parameter string this configuration asks for.
    pub fn param_string(&self) -> (r: String)
        ensures
            r@ == self.spec_params().text(),
    {
        params_to_string(&self.params)
    }
}

impl Default for ModLoader {
    /// The default loader: both checks enforced, no parameters.
    fn default() -> (r: Self)
        ensures
            !r.spec_ignore_modversion(),
            !r.spec_ignore_vermagic(),
            r.spec_params().entry_seq() == Seq::<crate::params::ParamEntry>::empty(),
            r.wf(),
    {
        Self { ignore_modversion: false, ignore_vermagic: false, params: ModParams::new() }
    }
}

/// Interpret the raw result of a `finit_module` call: `0` is the single
/// success value; any other return yields the reported OS error code, in
/// context "load module".
pub fn load_result(ret: i64, err_code: i32) -> (r: Result<(), Error>)
    ensures
        ret == 0 ==> r == Ok::<(), Error>(()),
        ret != 0 ==> r == Err::<(), Error>((Error { code: err_code, context: ErrorContext::LoadModule })),
{
    if ret == 0 {
        Ok(())
    } else {
        Err(Error { code: err_code, context: ErrorContext::LoadModule })
    }
}

} // verus!
