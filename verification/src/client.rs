//! What the speech server's replies mean.

use vstd::prelude::*;
use vstd::string::StringSliceAdditionalSpecFns;
use vstd::utf8::encode_utf8_decode_utf8;

verus! {

/// The server's answer to a request that switches a setting.
#[derive(Clone, Copy, Debug, PartialEq, Eq, Structural)]
pub enum SetValueResponse {
    /// The request was accepted; the flag says whether the setting already
    /// had the value asked for.
    Success(bool),
    /// The request was refused.
    Error,
}

/// A setting of the server that is switched on and off.
#[derive(Clone, Copy, Debug, PartialEq, Eq, Structural)]
pub enum Setting {
    /// DeepSpeed acceleration.
    DeepSpeed,
    /// Keeping the model out of video memory while it is idle.
    LowVram,
}

/// Whether `text` ends with the bytes of `tail`.
pub open spec fn ends_with(text: Seq<u8>, tail: Seq<u8>) -> bool {
    tail.len() <= text.len() && text.subrange(text.len() - tail.len(), text.len() as int) == tail
}

/// Whether `text`, from `start` on, begins with all of `part`.
fn matches_at(text: &[u8], start: usize, part: &[u8]) -> (same: bool)
    requires
        start + part@.len() <= text@.len(),
    ensures
        same == (text@.subrange(start as int, start + part@.len()) == part@),
{
    let ghost window = text@.subrange(start as int, start + part@.len());
    let mut i: usize = 0;
    while i < part.len()
        invariant
            i <= part.len(),
            start + part.len() <= text.len(),
            window == text@.subrange(start as int, start + part@.len()),
            forall|k: int| 0 <= k < i ==> window[k] == part@[k],
        decreases part@.len() - i,
    {
        if text[start + i] != part[i] {
            assert(window[i as int] != part@[i as int]);
            return false;
        }
        i += 1;
    }
    assert(window =~= part@);
    true
}

/// Whether two strings are the same text.
pub fn same_text(a: &str, b: &str) -> (same: bool)
    ensures
        same == (a@ == b@),
{
    proof {
        encode_utf8_decode_utf8(a@);
        encode_utf8_decode_utf8(b@);
    }
    let left = a.as_bytes();
    let right = b.as_bytes();
    if left.len() != right.len() {
        return false;
    }
    assert(left@.subrange(0, 0 + right@.len() as int) =~= left@);
    matches_at(left, 0, right)
}

/// The text that stands for a flag in a request.
pub fn flag_text(enable: bool) -> (text: &'static str)
    ensures
        text@ == if enable {
            "True"@
        } else {
            "False"@
        },
{
    if enable {
        "True"
    } else {
        "False"
    }
}

/// Whether the answer to the readiness request says that the server is
/// ready: the one answer `Ready` does.
pub fn is_ready(text: &str) -> (ready: bool)
    ensures
        ready == (text@ == "Ready"@),
{
    same_text(text, "Ready")
}

/// Whether the answer's message says that the running generation is being
/// cancelled.
pub fn generation_stopped(message: &str) -> (stopped: bool)
    ensures
        stopped == (message@ == "Cancelling current TTS generation"@),
{
    same_text(message, "Cancelling current TTS generation")
}

/// Whether the answer says that the configuration was read again.
pub fn config_reloaded(text: &str) -> (reloaded: bool)
    ensures
        reloaded == (text@ == "Config file reloaded successfully"@),
{
    same_text(text, "Config file reloaded successfully")
}

/// Whether the answer's status says that the model was loaded.
pub fn model_loaded(status: &str) -> (loaded: bool)
    ensures
        loaded == (status@ == "model-success"@),
{
    same_text(status, "model-success")
}

impl Setting {
    /// The text with which the server says that the setting already had the
    /// value asked for.
    pub open spec fn unchanged_text(self, enable: bool) -> Seq<char> {
        match (self, enable) {
            (Setting::DeepSpeed, true) => "DeepSpeed is already enabled."@,
            (Setting::DeepSpeed, false) => "DeepSpeed is already disabled."@,
            (Setting::LowVram, true) => "[AllTalk Model] LowVRAM is already enabled."@,
            (Setting::LowVram, false) => "[AllTalk Model] LowVRAM is already disabled."@,
        }
    }

    /// The message with which the server says that the setting already had
    /// the value asked for.
    pub fn unchanged_message(self, enable: bool) -> (text: &'static str)
        ensures
            text@ == self.unchanged_text(enable),
    {
        match self {
            Setting::DeepSpeed => if enable {
                "DeepSpeed is already enabled."
            } else {
                "DeepSpeed is already disabled."
            },
            Setting::LowVram => if enable {
                "[AllTalk Model] LowVRAM is already enabled."
            } else {
                "[AllTalk Model] LowVRAM is already disabled."
            },
        }
    }

    /// Reads the answer to a request that switched the setting to `enable`.
    ///
    /// A status that ends in `success` is an acceptance, any other a
    /// refusal. An acceptance is flagged where the message is the one with
    /// which the server says that nothing had to change.
    pub fn response(self, enable: bool, status: &str, message: Option<&str>) -> (r: SetValueResponse)
        ensures
            r == if ends_with(status.spec_bytes(), "success".spec_bytes()) {
                SetValueResponse::Success(
                    match message {
                        Some(text) => text@ == self.unchanged_text(enable),
                        None => false,
                    },
                )
            } else {
                SetValueResponse::Error
            },
    {
        let status = status.as_bytes();
        let tail = "success".as_bytes();
        let accepted = tail.len() <= status.len() && matches_at(
            status,
            status.len() - tail.len(),
            tail,
        );
        if accepted {
            SetValueResponse::Success(
                match message {
                    Some(text) => same_text(text, self.unchanged_message(enable)),
                    None => false,
                },
            )
        } else {
            SetValueResponse::Error
        }
    }
}

} // verus!
