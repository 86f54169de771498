pub mod text;
pub mod commands;
pub mod executor;
pub mod dispatch;
pub mod tokenizer;
pub mod laws;
pub mod detect;

pub use commands::{check_alias, cmd_exists, new_command, standard_commands, HelperCommand};
pub use dispatch::{run, CommandKind, Effect, GpuOp, Report};
pub use executor::{get_smi_ret_message, query_gpu_field, Environment};
pub use tokenizer::{entry_mode, plan, process, Entry, Step};
