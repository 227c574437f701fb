use vstd::prelude::*;

verus! {

/// A battery reading of the device.
#[derive(Debug, Clone, Copy, PartialEq, Eq, Structural)]
pub struct BatteryStatus {
    /// The voltage, in millivolts.
    pub voltage: u16,
    /// The charger is connected.
    pub connected: bool,
    /// The battery is fully charged.
    pub full: bool,
}

/// The default voltage range (in millivolts) of a li-ion battery at 25°C.
pub const DEFAULT_MIN_VOLTAGE: u16 = 3_000;
/// See [`DEFAULT_MIN_VOLTAGE`].
pub const DEFAULT_MAX_VOLTAGE: u16 = 4_200;

/// Battery status manager.
///
/// The State-of-Charge (SOC) of a battery is calculated from the current voltage
/// on the range from the minimum to the maximum voltage of the battery.
/// The minimum and maximum are stored in the FS, initially set to the defaults,
/// and updated if the actual voltage ever goes outside of that range.
pub struct Battery {
    pub ok: bool,
    pub connected: bool,
    pub full: bool,
    /// The charge, in percent.
    pub percent: u8,
    /// The lowest voltage seen, in millivolts.
    pub min_voltage: u16,
    /// The highest voltage seen, in millivolts.
    pub max_voltage: u16,
    /// The charge display must be drawn again.
    pub changed: bool,
}

impl Battery {
    /// A battery with the stored voltage range, at half charge until the first reading.
    pub fn new(min_voltage: u16, max_voltage: u16) -> (res: Self)
        ensures
            !res.ok,
            !res.connected,
            !res.full,
            res.percent == 50,
            res.min_voltage == min_voltage,
            res.max_voltage == max_voltage,
    {
        Battery { ok: false, connected: false, full: false, percent: 50, min_voltage, max_voltage, changed: false }
    }

    /// Apply a battery reading, with the charge computed from it.
    ///
    /// Without a reading the battery is not ok. A voltage outside of the known range
    /// widens the range; returns true if the range changed and must be stored.
    pub fn update(&mut self, status: Option<BatteryStatus>, percent: u8) -> (res: bool)
        ensures
            match status {
                None => {
                    &&& !final(self).ok
                    &&& !res
                    &&& final(self).connected == old(self).connected
                    &&& final(self).full == old(self).full
                    &&& final(self).percent == old(self).percent
                    &&& final(self).min_voltage == old(self).min_voltage
                    &&& final(self).max_voltage == old(self).max_voltage
                },
                Some(s) => {
                    &&& final(self).ok
                    &&& final(self).connected == s.connected
                    &&& final(self).full == s.full
                    &&& final(self).percent == percent
                    &&& final(self).max_voltage == (if s.voltage > old(self).max_voltage {
                        s.voltage
                    } else {
                        old(self).max_voltage
                    })
                    &&& final(self).min_voltage == (if s.voltage < old(self).min_voltage {
                        s.voltage
                    } else {
                        old(self).min_voltage
                    })
                    &&& res == (s.voltage > old(self).max_voltage || s.voltage < old(self).min_voltage)
                },
            },
            final(self).changed == old(self).changed,
            final(self).min_voltage <= old(self).min_voltage,
            final(self).max_voltage >= old(self).max_voltage,
            status matches Some(s) ==> final(self).min_voltage <= s.voltage <= final(self).max_voltage,
    {
        let status = match status {
            None => {
                self.ok = false;
                return false;
            },
            Some(s) => s,
        };
        self.full = status.full;
        self.connected = status.connected;
        self.ok = true;
        self.percent = percent;
        let mut sync = false;
        if status.voltage > self.max_voltage {
            self.max_voltage = status.voltage;
            sync = true;
        }
        if status.voltage < self.min_voltage {
            self.min_voltage = status.voltage;
            sync = true;
        }
        sync
    }
}

/// The width of the full battery bar, in pixels.
pub const BAR_MAX_WIDTH: u32 = 20;

/// The charge bar of the battery icon in the menu: its width in pixels (at least 1,
/// at most 20) and whether it is in the danger color (20% or less).
/// None if the bar is too narrow (under 4 pixels) to be drawn.
pub fn battery_bar(percent: u8) -> (res: Option<(u32, bool)>)
    ensures
        ({
            let w = 20 * percent / 100 + 1;
            let w = if w < 1 { 1 } else if w > 20 { 20 } else { w };
            if w >= 4 {
                res == Some((w as u32, percent <= 20))
            } else {
                res is None
            }
        }),
{
    let percent = percent as u32;
    let width = BAR_MAX_WIDTH * percent / 100 + 1;
    let width = if width < 1 { 1 } else if width > BAR_MAX_WIDTH { BAR_MAX_WIDTH } else { width };
    if width >= 4 {
        Some((width, percent <= 20))
    } else {
        None
    }
}

/// The battery icon shows the charging sign while the charger is connected and
/// the battery is not full yet.
pub fn charging(battery: &Battery) -> (res: bool)
    ensures
        res == (battery.connected && !battery.full),
{
    battery.connected && !battery.full
}

} // verus!
