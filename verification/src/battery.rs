//! Battery state, read from the kernel's power-supply files.

use vstd::prelude::*;
use crate::text::{parse_i32_spec, parse_trimmed_i32, trim};

verus! {

/// A file that should hold a number held something else.
#[derive(Debug, Clone, Copy, PartialEq, Eq, Structural)]
pub enum BatteryError {
    InvalidNumber,
}

/// The battery of the device: where its state is read from, and the state
/// last read.
pub struct MinimeBattery {
    battery_sysfs: Option<String>,
    charger_online_path: Option<String>,
    charging: bool,
    percentage: i32,
}

/// Whether a power-supply `status` text says that the battery charges:
/// `Charging` or `Full`, whitespace around it ignored.
pub open spec fn status_charging(text: Seq<char>) -> bool {
    trim(text) == "Charging"@ || trim(text) == "Full"@
}

/// What `set_status` records: a status counts as charging exactly when,
/// without the whitespace around it, it reads `Charging` or `Full`; every
/// other status (`Discharging`, `Not charging`, `Unknown`, an empty text)
/// does not.
pub proof fn lemma_status_charging(text: Seq<char>)
    ensures
        status_charging(text) <==> (trim(text) == "Charging"@ || trim(text) == "Full"@),
        trim(text) == "Not charging"@ || trim(text) == "Discharging"@ || trim(text) == "Unknown"@
            || trim(text).len() == 0 ==> !status_charging(text),
{
    reveal_strlit("Charging");
    reveal_strlit("Full");
    reveal_strlit("Not charging");
    reveal_strlit("Discharging");
    reveal_strlit("Unknown");
    assert("Charging"@.len() != "Full"@.len());
    if trim(text) == "Not charging"@ {
        assert(trim(text).len() != "Charging"@.len());
        assert(trim(text).len() != "Full"@.len());
    }
    if trim(text) == "Discharging"@ {
        assert(trim(text).len() != "Charging"@.len());
        assert(trim(text).len() != "Full"@.len());
    }
    if trim(text) == "Unknown"@ {
        assert(trim(text).len() != "Charging"@.len());
        assert(trim(text).len() != "Full"@.len());
    }
}

impl MinimeBattery {
    pub closed spec fn sysfs_dir(&self) -> Option<String> {
        self.battery_sysfs
    }

    pub closed spec fn charger_path(&self) -> Option<String> {
        self.charger_online_path
    }

    pub closed spec fn spec_charging(&self) -> bool {
        self.charging
    }

    pub closed spec fn spec_percentage(&self) -> i32 {
        self.percentage
    }

    /// A battery read from the power-supply directory `battery_sysfs` and
    /// the charger's `online` file, assumed full and not charging until the
    /// first update.
    pub fn new(battery_sysfs: Option<String>, charger_online_path: Option<String>) -> (r: Self)
        ensures
            r.sysfs_dir() == battery_sysfs,
            r.charger_path() == charger_online_path,
            !r.spec_charging(),
            r.spec_percentage() == 100,
    {
        MinimeBattery { battery_sysfs, charger_online_path, charging: false, percentage: 100 }
    }

    /// The power-supply directory whose `capacity` and `status` files an
    /// update reads.
    pub fn battery_sysfs(&self) -> (r: Option<&String>)
        ensures
            match r {
                Some(s) => self.sysfs_dir() == Some(*s),
                None => self.sysfs_dir() is None,
            },
    {
        self.battery_sysfs.as_ref()
    }

    /// The charger `online` file that an update reads.
    pub fn charger_online_path(&self) -> (r: Option<&String>)
        ensures
            match r {
                Some(s) => self.charger_path() == Some(*s),
                None => self.charger_path() is None,
            },
    {
        self.charger_online_path.as_ref()
    }

    /// Takes the text of the `capacity` file: a whole number, whitespace
    /// around it ignored, becomes the percentage; anything else is refused
    /// and changes nothing.
    pub fn set_capacity(&mut self, text: &str) -> (r: Result<(), BatteryError>)
        ensures
            final(self).sysfs_dir() == old(self).sysfs_dir(),
            final(self).charger_path() == old(self).charger_path(),
            final(self).spec_charging() == old(self).spec_charging(),
            match parse_i32_spec(trim(text@)) {
                Some(n) => r is Ok && final(self).spec_percentage() == n,
                None => r == Err::<(), BatteryError>(BatteryError::InvalidNumber)
                    && final(self).spec_percentage() == old(self).spec_percentage(),
            },
    {
        match parse_trimmed_i32(text) {
            Some(n) => {
                self.percentage = n;
                Ok(())
            },
            None => Err(BatteryError::InvalidNumber),
        }
    }

    /// Takes the text of the `status` file (empty where it could not be
    /// read): the battery charges when it says `Charging` or `Full`.
    pub fn set_status(&mut self, text: &str)
        ensures
            final(self).sysfs_dir() == old(self).sysfs_dir(),
            final(self).charger_path() == old(self).charger_path(),
            final(self).spec_percentage() == old(self).spec_percentage(),
            final(self).spec_charging() == status_charging(text@),
    {
        let t = crate::text::trimmed(text);
        let charging_text = "Charging".to_owned();
        let full_text = "Full".to_owned();
        self.charging = t == charging_text || t == full_text;
    }

    /// Takes the text of the charger's `online` file: a whole number,
    /// whitespace around it ignored, says the battery charges when it is
    /// not 0; anything else is refused and changes nothing.
    pub fn set_charger_online(&mut self, text: &str) -> (r: Result<(), BatteryError>)
        ensures
            final(self).sysfs_dir() == old(self).sysfs_dir(),
            final(self).charger_path() == old(self).charger_path(),
            final(self).spec_percentage() == old(self).spec_percentage(),
            match parse_i32_spec(trim(text@)) {
                Some(n) => r is Ok && final(self).spec_charging() == (n != 0),
                None => r == Err::<(), BatteryError>(BatteryError::InvalidNumber)
                    && final(self).spec_charging() == old(self).spec_charging(),
            },
    {
        match parse_trimmed_i32(text) {
            Some(n) => {
                self.charging = n != 0;
                Ok(())
            },
            None => Err(BatteryError::InvalidNumber),
        }
    }

    pub fn percentage(&self) -> (r: i32)
        ensures
            r == self.spec_percentage(),
    {
        self.percentage
    }

    pub fn charging(&self) -> (r: bool)
        ensures
            r == self.spec_charging(),
    {
        self.charging
    }
}

} // verus!
