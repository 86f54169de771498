use vstd::prelude::*;
use crate::text::{split_on, split_text};

verus! {

/// The display context handed to the settings tool, and whether the
/// output of every external call is shown.
pub struct Environment {
    pub xauthority: String,
    pub display: String,
    pub debug: bool,
}

/// The mathematical content of an [`Environment`].
pub struct EnvView {
    pub xauthority: Seq<char>,
    pub display: Seq<char>,
    pub debug: bool,
}

impl DeepView for Environment {
    type V = EnvView;

    open spec fn deep_view(&self) -> EnvView {
        EnvView { xauthority: self.xauthority@, display: self.display@, debug: self.debug }
    }
}

/// The environment used before anything has been detected.
pub open spec fn default_env() -> EnvView {
    EnvView { xauthority: "/run/user/1000/gdm/Xauthority"@, display: ":0"@, debug: false }
}

impl Default for Environment {
    fn default() -> (r: Self)
        ensures
            r.deep_view() == default_env(),
    {
        Environment {
            xauthority: String::from_str("/run/user/1000/gdm/Xauthority"),
            display: String::from_str(":0"),
            debug: false,
        }
    }
}

impl Environment {
    /// An independent copy of this environment.
    pub fn snapshot(&self) -> (r: Environment)
        ensures
            r.deep_view() == self.deep_view(),
    {
        Environment {
            xauthority: self.xauthority.clone(),
            display: self.display.clone(),
            debug: self.debug,
        }
    }
}

/// The meaning of an exit status of the query/control utility.
pub open spec fn smi_message(x: i32) -> Seq<char> {
    if x == 0 {
        "Successfully executed"@
    } else if x == 2 {
        "Argument was invalid"@
    } else if x == 3 {
        "Operation is not available on device"@
    } else if x == 4 {
        "Insufficient permission"@
    } else if x == 6 {
        "Unable to query"@
    } else if x == 8 {
        "VGA power cable error"@
    } else if x == 9 {
        "Driver error"@
    } else if x == 10 {
        "GPU interrupt error"@
    } else if x == 12 {
        "NVML library unavailable"@
    } else if x == 13 {
        "NVML library does not support operation"@
    } else if x == 14 {
        "infoROM is corrupted"@
    } else if x == 15 {
        "GPU is inaccessible due to an error"@
    } else if x == 255 {
        "Driver or other error related to GPU"@
    } else {
        "There was an unknown error"@
    }
}

/// What an exit status of the query/control utility means.
pub fn get_smi_ret_message(x: i32) -> (r: &'static str)
    ensures
        r@ == smi_message(x),
{
    match x {
        0 => "Successfully executed",
        2 => "Argument was invalid",
        3 => "Operation is not available on device",
        4 => "Insufficient permission",
        6 => "Unable to query",
        8 => "VGA power cable error",
        9 => "Driver error",
        10 => "GPU interrupt error",
        12 => "NVML library unavailable",
        13 => "NVML library does not support operation",
        14 => "infoROM is corrupted",
        15 => "GPU is inaccessible due to an error",
        255 => "Driver or other error related to GPU",
        _ => "There was an unknown error",
    }
}

/// The text a field query yields: what the utility printed, when it ran and
/// printed valid text, and `Unknown` otherwise.
pub fn query_gpu_field(captured: Option<String>) -> (r: String)
    ensures
        r@ == match captured {
            Some(s) => s@,
            None => "Unknown"@,
        },
{
    match captured {
        Some(s) => s,
        None => String::from_str("Unknown"),
    }
}

/// The fields of a query answer, which the utility separates by `, `.
pub fn query_fields(raw: &str) -> (r: Vec<String>)
    ensures
        r.deep_view() == split_on(raw@, ", "@),
{
    proof {
        reveal_strlit(", ");
    }
    split_text(raw, ", ")
}

} // verus!
