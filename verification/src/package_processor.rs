//! Simple package processors: what they report while they work and the
//! record a basic processor writes for a package.

use vstd::prelude::*;
use crate::text::{dec, push_dec};

verus! {

/// A simple processor that simulates a package processing workflow.
pub struct SimpleProcessor {
    /// The package being processed
    pub package_name: String,
}

impl SimpleProcessor {
    /// A processor for the package `name`.
    pub fn new(name: String) -> (p: SimpleProcessor)
        ensures
            p.package_name@ == name@,
    {
        SimpleProcessor { package_name: name }
    }

    /// The progress message shown while the package is processed.
    pub fn start_message(&self) -> (r: String)
        ensures
            r@ == "Processing package: "@ + self.package_name@,
    {
        let mut r = String::from_str("Processing package: ");
        r.append(self.package_name.as_str());
        r
    }
}

/// A processor that writes a short record of a package.
pub struct BasicPackageProcessor {
    /// The package's name
    pub name: String,
    /// Where the package comes from
    pub source_url: String,
    /// The kind of package
    pub processor_type: String,
}

/// A signed number in decimal.
pub open spec fn signed_dec(n: i64) -> Seq<char> {
    if n < 0 {
        "-"@ + dec((-n) as nat)
    } else {
        dec(n as nat)
    }
}

impl BasicPackageProcessor {
    /// The progress message shown while the package is processed.
    pub fn start_message(&self) -> (r: String)
        ensures
            r@ == "Processing "@ + self.processor_type@ + " package: "@ + self.name@,
    {
        let mut r = String::from_str("Processing ");
        r.append(self.processor_type.as_str());
        r.append(" package: ");
        r.append(self.name.as_str());
        r
    }

    /// The name of the record written at Unix time `timestamp` (seconds).
    pub fn record_file_name(&self, timestamp: i64) -> (r: String)
        ensures
            r@ == self.name@ + "_"@ + signed_dec(timestamp) + ".txt"@,
    {
        let mut r = self.name.clone();
        r.append("_");
        if timestamp < 0 {
            r.append("-");
            let m: u64 = if timestamp == i64::MIN {
                0x8000_0000_0000_0000u64
            } else {
                (-timestamp) as u64
            };
            push_dec(&mut r, m);
        } else {
            push_dec(&mut r, timestamp as u64);
        }
        r.append(".txt");
        r
    }

    /// The record of the package, processed at `processed`.
    pub fn record_content(&self, processed: &str) -> (r: String)
        ensures
            r@ == "Package: "@ + self.name@ + "\nType: "@ + self.processor_type@ + "\nSource: "@ + self.source_url@
                + "\nProcessed: "@ + processed@ + "\n"@,
    {
        let mut r = String::from_str("Package: ");
        r.append(self.name.as_str());
        r.append("\nType: ");
        r.append(self.processor_type.as_str());
        r.append("\nSource: ");
        r.append(self.source_url.as_str());
        r.append("\nProcessed: ");
        r.append(processed);
        r.append("\n");
        r
    }

    /// The message shown once the record is written.
    pub fn done_message(&self) -> (r: String)
        ensures
            r@ == self.processor_type@ + " package "@ + self.name@ + " processed successfully"@,
    {
        let mut r = self.processor_type.clone();
        r.append(" package ");
        r.append(self.name.as_str());
        r.append(" processed successfully");
        r
    }
}

} // verus!
