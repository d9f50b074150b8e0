//! The text-valued parts of the application's configuration: where the
//! trigger transport is, and where clips are written.

use crate::error::AppError;
use vstd::prelude::*;
use vstd::string::StringExecFns;

verus! {

/// Where the trigger transport is reached.
#[derive(Debug)]
pub struct NetworkConfig {
    pub address: String,
    pub sub_port: String,
    pub req_port: String,
}

/// Where exported clips are written.
#[derive(Debug)]
pub struct OutputConfig {
    pub save_folder: String,
}

/// `value` when it differs from the command line's `default`, else `current`.
pub open spec fn overridden(current: Seq<char>, value: Seq<char>, default: Seq<char>) -> Seq<char> {
    if value != default {
        value
    } else {
        current
    }
}

fn override_field(field: &mut String, value: &str, default: &str)
    ensures
        final(field)@ == overridden(old(field)@, value@, default@),
{
    let v = String::from_str(value);
    let d = String::from_str(default);
    if v != d {
        *field = v;
    }
}

impl NetworkConfig {
    /// The subscriber's endpoint, `tcp://<address>:<sub_port>`.
    pub fn subscriber_endpoint(&self) -> (r: String)
        ensures
            r@ == "tcp://"@ + self.address@ + ":"@ + self.sub_port@,
    {
        let mut r = String::from_str("tcp://");
        r.append(self.address.as_str());
        r.append(":");
        r.append(self.sub_port.as_str());
        r
    }

    /// Both ports must be given.
    pub fn validate(&self) -> (r: Result<(), AppError>)
        ensures
            r is Ok <==> (self.sub_port@.len() > 0 && self.req_port@.len() > 0),
            r matches Err(AppError::Config(m)) && m@ == "Network ports cannot be empty"@ || r is Ok,
    {
        if self.sub_port.as_str().unicode_len() == 0 || self.req_port.as_str().unicode_len() == 0 {
            return Err(AppError::Config(String::from_str("Network ports cannot be empty")));
        }
        Ok(())
    }

    /// Takes each command-line value that differs from the command line's
    /// default (`127.0.0.1`, `5556`, `5557`); the others keep the file's.
    pub fn override_with(&mut self, address: &str, sub_port: &str, req_port: &str)
        ensures
            final(self).address@ == overridden(old(self).address@, address@, "127.0.0.1"@),
            final(self).sub_port@ == overridden(old(self).sub_port@, sub_port@, "5556"@),
            final(self).req_port@ == overridden(old(self).req_port@, req_port@, "5557"@),
    {
        override_field(&mut self.address, address, "127.0.0.1");
        override_field(&mut self.sub_port, sub_port, "5556");
        override_field(&mut self.req_port, req_port, "5557");
    }
}

impl OutputConfig {
    /// The save folder must be given.
    pub fn validate(&self) -> (r: Result<(), AppError>)
        ensures
            r is Ok <==> self.save_folder@.len() > 0,
            r matches Err(AppError::Config(m)) && m@ == "Save folder cannot be empty"@ || r is Ok,
    {
        if self.save_folder.as_str().unicode_len() == 0 {
            return Err(AppError::Config(String::from_str("Save folder cannot be empty")));
        }
        Ok(())
    }

    /// Takes the command-line folder when it differs from the command
    /// line's default, `output`.
    pub fn override_with(&mut self, save_folder: &str)
        ensures
            final(self).save_folder@ == overridden(old(self).save_folder@, save_folder@, "output"@),
    {
        override_field(&mut self.save_folder, save_folder, "output");
    }
}

} // verus!
