//! The download command: model validation and the response it reports.
use vstd::prelude::*;
use crate::text::{append, owned, str_eq};

verus! {

/// Models that can be downloaded.
pub const VALID_MODELS: [&'static str; 5] = ["hrrr", "gfs", "nam", "rap", "mrms"];

/// What the download command reports.
#[derive(Debug)]
pub struct DownloadResponse {
    pub status: &'static str,
    pub model: String,
    pub run: String,
    pub fhour: String,
    pub output: String,
    pub message: String,
}

/// Whether `model` is one of the valid models.
pub open spec fn is_valid_model(model: Seq<char>) -> bool {
    exists|i: int| 0 <= i < 5 && (#[trigger] VALID_MODELS[i])@ == model
}

/// The message for a model that is not valid.
pub open spec fn unknown_model_message(model: Seq<char>) -> Seq<char> {
    "unknown model '"@ + model + "'. Valid models: hrrr, gfs, nam, rap, mrms"@
}

/// The note reported while downloads are not wired up.
pub open spec fn stub_message() -> Seq<char> {
    "Download not yet wired — will use rustmet-core download infrastructure"@
}

/// Check the model and describe the requested download; an unknown model
/// is an error naming the valid ones.
pub fn run(model: &str, run_time: &str, fhour: &str, output: &str) -> (r: Result<DownloadResponse, String>)
    ensures
        is_valid_model(model@) <==> r is Ok,
        match r {
            Ok(resp) => resp.status@ == "stub"@ && resp.model@ == model@ && resp.run@ == run_time@
                && resp.fhour@ == fhour@ && resp.output@ == output@ && resp.message@
                == stub_message(),
            Err(e) => e@ == unknown_model_message(model@),
        },
{
    let mut i: usize = 0;
    let mut found = false;
    while i < 5
        invariant
            i <= 5,
            found == exists|j: int| 0 <= j < i && (#[trigger] VALID_MODELS[j])@ == model@,
        decreases 5 - i,
    {
        if str_eq(VALID_MODELS[i], model) {
            found = true;
        }
        i += 1;
    }
    if !found {
        let mut e = String::new();
        append(&mut e, "unknown model '");
        append(&mut e, model);
        append(&mut e, "'. Valid models: hrrr, gfs, nam, rap, mrms");
        return Err(e);
    }
    Ok(
        DownloadResponse {
            status: "stub",
            model: owned(model),
            run: owned(run_time),
            fhour: owned(fhour),
            output: owned(output),
            message: owned("Download not yet wired — will use rustmet-core download infrastructure"),
        },
    )
}

} // verus!
