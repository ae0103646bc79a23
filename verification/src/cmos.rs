//! The battery-backed memory and the clock in it.
use vstd::prelude::*;
use crate::machine::{Access, Io, Machine, Order, Place};
use crate::trace::{group_observed, observed};

verus! {

pub const INDEX_PORT: u16 = 0x70;
pub const DATA_PORT: u16 = 0x71;
pub const CMOS_REGISTER_COUNT: u8 = 128;
pub const NMI_DISABLE: u8 = 0x80;
pub const REG_SECONDS: u8 = 0x00;
pub const REG_MINUTES: u8 = 0x02;
pub const REG_HOURS: u8 = 0x04;
pub const REG_DAY: u8 = 0x07;
pub const REG_MONTH: u8 = 0x08;
pub const REG_YEAR: u8 = 0x09;
pub const REG_STATUS_A: u8 = 0x0A;
pub const REG_STATUS_B: u8 = 0x0B;
pub const REG_CENTURY: u8 = 0x32;
/// The clock is changing its registers.
pub const STATUS_A_UIP: u8 = 0x80;
pub const STATUS_B_24_HOUR: u8 = 0x02;
pub const STATUS_B_BINARY: u8 = 0x04;
/// The clock stands still while its registers are written.
pub const STATUS_B_SET: u8 = 0x80;
pub const UIP_POLL_LIMIT: u32 = 2_000_000;
pub const SNAPSHOT_ATTEMPTS: usize = 8;

#[derive(Debug, Clone, Copy, PartialEq, Eq, Structural)]
pub enum CmosError {
    InvalidRegister(u8),
    UpdateTimeout,
    UnstableClock,
    InvalidBcd,
    InvalidDate,
}

/// A moment.
#[derive(Debug, Clone, Copy, PartialEq, Eq, Structural)]
pub struct DateTime {
    pub seconds: u8,
    pub minutes: u8,
    pub hours: u8,
    pub day: u8,
    pub month: u8,
    pub year: u16,
}

/// The clock's registers as they are.
#[derive(Debug, Clone, Copy, PartialEq, Eq, Structural)]
pub struct RawRtc {
    pub seconds: u8,
    pub minutes: u8,
    pub hours: u8,
    pub day: u8,
    pub month: u8,
    pub year: u8,
    pub century: u8,
}

/// Whether a register is selected with the non-maskable interrupt off.
#[derive(Debug, Clone, Copy, PartialEq, Eq, Structural)]
pub struct Cmos {
    pub nmi_disabled: bool,
}

impl Cmos {
    /// The byte that selects a register.
    pub open spec fn selector(self, register: u8) -> u8 {
        register | if self.nmi_disabled {
            NMI_DISABLE
        } else {
            0u8
        }
    }

    pub open spec fn read_run(self, register: u8, io: Io) -> (u8, Io) {
        io.w8(Place::Port(INDEX_PORT), self.selector(register)).tell(Order::IoWait).r8(
            Place::Port(DATA_PORT),
        )
    }

    pub open spec fn write_run(self, register: u8, value: u8, io: Io) -> Io {
        io.w8(Place::Port(INDEX_PORT), self.selector(register)).tell(Order::IoWait).w8(
            Place::Port(DATA_PORT),
            value,
        ).tell(Order::IoWait)
    }

    /// Wait until the clock does not change its registers.
    pub open spec fn settle_run(self, limit: nat, io: Io) -> (Result<(), CmosError>, Io)
        decreases limit,
    {
        if limit == 0 {
            (Err(CmosError::UpdateTimeout), io)
        } else {
            let (status, io) = self.read_run(REG_STATUS_A, io);
            if status & STATUS_A_UIP == 0 {
                (Ok(()), io)
            } else {
                self.settle_run((limit - 1) as nat, io)
            }
        }
    }

    pub open spec fn snapshot_run(self, io: Io) -> (RawRtc, Io) {
        let (seconds, io) = self.read_run(REG_SECONDS, io);
        let (minutes, io) = self.read_run(REG_MINUTES, io);
        let (hours, io) = self.read_run(REG_HOURS, io);
        let (day, io) = self.read_run(REG_DAY, io);
        let (month, io) = self.read_run(REG_MONTH, io);
        let (year, io) = self.read_run(REG_YEAR, io);
        let (century, io) = self.read_run(REG_CENTURY, io);
        (RawRtc { seconds, minutes, hours, day, month, year, century }, io)
    }

    /// Read the clock twice until both readings agree, a number of times at
    /// most.
    pub open spec fn now_run(self, attempts: nat, io: Io) -> (Result<DateTime, CmosError>, Io)
        decreases attempts,
    {
        if attempts == 0 {
            (Err(CmosError::UnstableClock), io)
        } else {
            match self.settle_run(UIP_POLL_LIMIT as nat, io) {
                (Err(error), io) => (Err(error), io),
                (Ok(_), io) => {
                    let (first, io) = self.snapshot_run(io);
                    let (status_b, io) = self.read_run(REG_STATUS_B, io);
                    match self.settle_run(UIP_POLL_LIMIT as nat, io) {
                        (Err(error), io) => (Err(error), io),
                        (Ok(_), io) => {
                            let (second, io) = self.snapshot_run(io);
                            if first == second {
                                (moment(second, status_b), io)
                            } else {
                                self.now_run((attempts - 1) as nat, io)
                            }
                        },
                    }
                },
            }
        }
    }

    /// Write all registers of the clock while it stands still.
    pub open spec fn store_run(self, raw: RawRtc, io: Io) -> Io {
        let io = self.write_run(REG_SECONDS, raw.seconds, io);
        let io = self.write_run(REG_MINUTES, raw.minutes, io);
        let io = self.write_run(REG_HOURS, raw.hours, io);
        let io = self.write_run(REG_DAY, raw.day, io);
        let io = self.write_run(REG_MONTH, raw.month, io);
        let io = self.write_run(REG_YEAR, raw.year, io);
        self.write_run(REG_CENTURY, raw.century, io)
    }

    pub open spec fn set_run(self, datetime: DateTime, io: Io) -> (Result<(), CmosError>, Io) {
        if !is_valid(datetime) {
            (Err(CmosError::InvalidDate), io)
        } else {
            match self.settle_run(UIP_POLL_LIMIT as nat, io) {
                (Err(error), io) => (Err(error), io),
                (Ok(_), io) => {
                    let (status_b, io) = self.read_run(REG_STATUS_B, io);
                    let io = self.write_run(REG_STATUS_B, status_b | STATUS_B_SET, io);
                    let io = self.store_run(registers_of(datetime, status_b), io);
                    (Ok(()), self.write_run(REG_STATUS_B, status_b & !STATUS_B_SET, io))
                },
            }
        }
    }

    pub fn new() -> (cmos: Self)
        ensures
            !cmos.nmi_disabled,
    {
        Cmos { nmi_disabled: false }
    }

    fn select_value(&self, register: u8) -> (selector: u8)
        ensures
            selector == self.selector(register),
    {
        register | if self.nmi_disabled {
            NMI_DISABLE
        } else {
            0
        }
    }

    fn read_register<M: Machine>(&self, machine: &mut M, register: u8) -> (value: u8)
        ensures
            (value, final(machine).io()) == self.read_run(register, old(machine).io()),
    {
        machine.write8(Place::Port(INDEX_PORT), self.select_value(register));
        machine.tell(Order::IoWait);
        machine.read8(Place::Port(DATA_PORT))
    }

    fn write_register<M: Machine>(&self, machine: &mut M, register: u8, value: u8)
        ensures
            final(machine).io() == self.write_run(register, value, old(machine).io()),
    {
        machine.write8(Place::Port(INDEX_PORT), self.select_value(register));
        machine.tell(Order::IoWait);
        machine.write8(Place::Port(DATA_PORT), value);
        machine.tell(Order::IoWait);
    }

    fn raw_snapshot<M: Machine>(&self, machine: &mut M) -> (raw: RawRtc)
        ensures
            (raw, final(machine).io()) == self.snapshot_run(old(machine).io()),
    {
        RawRtc {
            seconds: self.read_register(machine, REG_SECONDS),
            minutes: self.read_register(machine, REG_MINUTES),
            hours: self.read_register(machine, REG_HOURS),
            day: self.read_register(machine, REG_DAY),
            month: self.read_register(machine, REG_MONTH),
            year: self.read_register(machine, REG_YEAR),
            century: self.read_register(machine, REG_CENTURY),
        }
    }
}

/// Choose whether registers are selected with the non-maskable interrupt off.
pub fn set_nmi_disabled<M: Machine>(cmos: &mut Cmos, machine: &mut M, disabled: bool)
    ensures
        final(cmos).nmi_disabled == disabled,
        final(machine).io() == old(machine).io().w8(
            Place::Port(INDEX_PORT),
            Cmos { nmi_disabled: disabled }.selector(REG_STATUS_A),
        ),
{
    cmos.nmi_disabled = disabled;
    machine.write8(Place::Port(INDEX_PORT), cmos.select_value(REG_STATUS_A));
}

pub fn nmi_disabled(cmos: &Cmos) -> (disabled: bool)
    ensures
        disabled == cmos.nmi_disabled,
{
    cmos.nmi_disabled
}

/// Read a register.
pub fn get<M: Machine>(cmos: &Cmos, machine: &mut M, register: u8) -> (result: Result<
    u8,
    CmosError,
>)
    ensures
        register >= CMOS_REGISTER_COUNT ==> result == Err::<u8, CmosError>(
            CmosError::InvalidRegister(register),
        ) && final(machine).io() == old(machine).io(),
        register < CMOS_REGISTER_COUNT ==> result is Ok && (result->Ok_0, final(machine).io())
            == cmos.read_run(register, old(machine).io()),
{
    if register >= CMOS_REGISTER_COUNT {
        return Err(CmosError::InvalidRegister(register));
    }
    Ok(cmos.read_register(machine, register))
}

/// Write a register.
pub fn set<M: Machine>(cmos: &Cmos, machine: &mut M, register: u8, value: u8) -> (result: Result<
    (),
    CmosError,
>)
    ensures
        register >= CMOS_REGISTER_COUNT ==> result == Err::<(), CmosError>(
            CmosError::InvalidRegister(register),
        ) && final(machine).io() == old(machine).io(),
        register < CMOS_REGISTER_COUNT ==> result is Ok && final(machine).io() == cmos.write_run(
            register,
            value,
            old(machine).io(),
        ),
{
    if register >= CMOS_REGISTER_COUNT {
        return Err(CmosError::InvalidRegister(register));
    }
    cmos.write_register(machine, register, value);
    Ok(())
}

/// Read a byte of the memory.
pub fn nvram_get<M: Machine>(cmos: &Cmos, machine: &mut M, register: u8) -> (result: Result<
    u8,
    CmosError,
>)
    ensures
        register >= CMOS_REGISTER_COUNT ==> result == Err::<u8, CmosError>(
            CmosError::InvalidRegister(register),
        ) && final(machine).io() == old(machine).io(),
        register < CMOS_REGISTER_COUNT ==> result is Ok && (result->Ok_0, final(machine).io())
            == cmos.read_run(register, old(machine).io()),
{
    get(cmos, machine, register)
}

/// Write a byte of the memory.
pub fn nvram_set<M: Machine>(cmos: &Cmos, machine: &mut M, register: u8, value: u8) -> (result: Result<
    (),
    CmosError,
>)
    ensures
        register >= CMOS_REGISTER_COUNT ==> result == Err::<(), CmosError>(
            CmosError::InvalidRegister(register),
        ) && final(machine).io() == old(machine).io(),
        register < CMOS_REGISTER_COUNT ==> result is Ok && final(machine).io() == cmos.write_run(
            register,
            value,
            old(machine).io(),
        ),
{
    set(cmos, machine, register, value)
}

/// Wait until the clock does not change its registers.
pub fn wait_update_complete<M: Machine>(cmos: &Cmos, machine: &mut M) -> (result: Result<
    (),
    CmosError,
>)
    ensures
        (result, final(machine).io()) == cmos.settle_run(
            UIP_POLL_LIMIT as nat,
            old(machine).io(),
        ),
{
    let mut left: u32 = UIP_POLL_LIMIT;
    while left > 0
        invariant
            cmos.settle_run(UIP_POLL_LIMIT as nat, old(machine).io()) == cmos.settle_run(
                left as nat,
                machine.io(),
            ),
        decreases left,
    {
        if cmos.read_register(machine, REG_STATUS_A) & STATUS_A_UIP == 0 {
            return Ok(());
        }
        left = left - 1;
    }
    Err(CmosError::UpdateTimeout)
}

/// Two decimal digits in a byte.
pub open spec fn bcd_value(value: u8) -> Result<u8, CmosError> {
    if value & 0x0F > 9 || value >> 4 > 9 {
        Err(CmosError::InvalidBcd)
    } else {
        Ok(((value >> 4) * 10 + (value & 0x0F)) as u8)
    }
}

/// Two decimal digits in a byte.
pub fn decode_bcd(value: u8) -> (result: Result<u8, CmosError>)
    ensures
        result == bcd_value(value),
{
    if value & 0x0F > 9 || value >> 4 > 9 {
        return Err(CmosError::InvalidBcd);
    }
    Ok((value >> 4) * 10 + (value & 0x0F))
}

/// A number as two decimal digits.
pub open spec fn bcd_digits(value: u8) -> u8 {
    ((value / 10) << 4) | (value % 10)
}

/// A number as two decimal digits.
pub fn encode_bcd(value: u8) -> (digits: u8)
    ensures
        digits == bcd_digits(value),
{
    ((value / 10) << 4) | (value % 10)
}

proof fn lemma_bcd_bits(value: u8)
    by (bit_vector)
    requires
        value <= 99,
    ensures
        (((value / 10) << 4) | (value % 10)) & 0x0F == value % 10,
        (((value / 10) << 4) | (value % 10)) >> 4 == value / 10,
        (((value / 10) << 4) | (value % 10)) <= 0x99,
        value < 80 ==> (((value / 10) << 4) | (value % 10)) & 0x80 == 0,
        value < 80 ==> (((value / 10) << 4) | (value % 10)) & 0x7F == (((value / 10) << 4) | (value
            % 10)),
        value != 0 ==> (((value / 10) << 4) | (value % 10)) != 0,
{
}

/// A number below one hundred leads back to itself through its digits.
pub proof fn lemma_bcd_round_trip(value: u8)
    requires
        value <= 99,
    ensures
        bcd_value(bcd_digits(value)) == Ok::<u8, CmosError>(value),
{
    lemma_bcd_bits(value);
}

/// A register of the clock.
pub open spec fn field_value(value: u8, binary: bool) -> Result<u8, CmosError> {
    if binary {
        Ok(value)
    } else {
        bcd_value(value)
    }
}

/// A number as a register of the clock holds it.
pub open spec fn field_of(value: u8, binary: bool) -> u8 {
    if binary {
        value
    } else {
        bcd_digits(value)
    }
}

fn decode_field(value: u8, binary: bool) -> (result: Result<u8, CmosError>)
    ensures
        result == field_value(value, binary),
{
    if binary {
        Ok(value)
    } else {
        decode_bcd(value)
    }
}

fn encode_field(value: u8, binary: bool) -> (field: u8)
    ensures
        field == field_of(value, binary),
{
    if binary {
        value
    } else {
        encode_bcd(value)
    }
}

/// Whether a year has a leap day.
pub open spec fn is_leap(year: int) -> bool {
    year % 4 == 0 && (year % 100 != 0 || year % 400 == 0)
}

/// Days in a month.
pub open spec fn month_length(year: int, month: u8) -> Option<u8> {
    if month == 1 || month == 3 || month == 5 || month == 7 || month == 8 || month == 10 || month
        == 12 {
        Some(31)
    } else if month == 4 || month == 6 || month == 9 || month == 11 {
        Some(30)
    } else if month == 2 {
        Some(
            if is_leap(year) {
                29
            } else {
                28
            },
        )
    } else {
        None
    }
}

/// Whether a moment exists.
pub open spec fn is_valid(datetime: DateTime) -> bool {
    &&& 1 <= datetime.year <= 9999
    &&& datetime.seconds <= 59
    &&& datetime.minutes <= 59
    &&& datetime.hours <= 23
    &&& month_length(datetime.year as int, datetime.month) is Some
    &&& 1 <= datetime.day <= month_length(datetime.year as int, datetime.month)->0
}

fn is_leap_year(year: u16) -> (leap: bool)
    ensures
        leap == is_leap(year as int),
{
    year % 4 == 0 && (year % 100 != 0 || year % 400 == 0)
}

fn days_in_month(year: u16, month: u8) -> (days: Option<u8>)
    ensures
        days == month_length(year as int, month),
{
    match month {
        1 | 3 | 5 | 7 | 8 | 10 | 12 => Some(31),
        4 | 6 | 9 | 11 => Some(30),
        2 => Some(
            if is_leap_year(year) {
                29
            } else {
                28
            },
        ),
        _ => None,
    }
}

/// Whether a moment exists.
pub fn validate(datetime: DateTime) -> (result: Result<(), CmosError>)
    ensures
        result == (if is_valid(datetime) {
            Ok(())
        } else {
            Err(CmosError::InvalidDate)
        }),
{
    if datetime.year == 0 || datetime.year > 9999 || datetime.seconds > 59 || datetime.minutes > 59
        || datetime.hours > 23 {
        return Err(CmosError::InvalidDate);
    }
    match days_in_month(datetime.year, datetime.month) {
        Some(max_day) => {
            if datetime.day == 0 || datetime.day > max_day {
                return Err(CmosError::InvalidDate);
            }
            Ok(())
        },
        None => Err(CmosError::InvalidDate),
    }
}

/// The hour of the day behind the hours register.  On a twelve-hour clock the
/// top bit stands for the afternoon, and twelve comes before one.
pub open spec fn hour_of(register: u8, binary: bool, hours_24: bool) -> Result<u8, CmosError> {
    if hours_24 {
        field_value(register, binary)
    } else {
        match field_value(register & 0x7F, binary) {
            Err(error) => Err(error),
            Ok(hour) => if hour == 0 || hour > 12 {
                Err(CmosError::InvalidDate)
            } else {
                Ok(
                    ((if hour == 12 {
                        0int
                    } else {
                        hour as int
                    }) + (if register & 0x80 != 0 {
                        12int
                    } else {
                        0int
                    })) as u8,
                )
            },
        }
    }
}

/// The moment behind a reading.  A clock without a century is taken to be in
/// the twenty-first.
pub open spec fn moment(raw: RawRtc, status_b: u8) -> Result<DateTime, CmosError> {
    let binary = status_b & STATUS_B_BINARY != 0;
    let hours_24 = status_b & STATUS_B_24_HOUR != 0;
    let century = if raw.century == 0 {
        Ok(20u8)
    } else {
        field_value(raw.century, binary)
    };
    match hour_of(raw.hours, binary, hours_24) {
        Err(error) => Err(error),
        Ok(hours) => match (
            field_value(raw.year, binary),
            century,
            field_value(raw.seconds, binary),
            field_value(raw.minutes, binary),
            field_value(raw.day, binary),
            field_value(raw.month, binary),
        ) {
            (Ok(year_low), Ok(century), Ok(seconds), Ok(minutes), Ok(day), Ok(month)) => {
                let datetime = DateTime {
                    seconds,
                    minutes,
                    hours,
                    day,
                    month,
                    year: (century * 100 + year_low) as u16,
                };
                if is_valid(datetime) {
                    Ok(datetime)
                } else {
                    Err(CmosError::InvalidDate)
                }
            },
            _ => Err(CmosError::InvalidBcd),
        },
    }
}

fn decode_hours(register: u8, binary: bool, hours_24: bool) -> (result: Result<u8, CmosError>)
    ensures
        result == hour_of(register, binary, hours_24),
{
    if hours_24 {
        return decode_field(register, binary);
    }
    let pm: bool = register & 0x80 != 0;
    let mut hours: u8 = match decode_field(register & 0x7F, binary) {
        Ok(hours) => hours,
        Err(error) => {
            return Err(error);
        },
    };
    if hours == 0 || hours > 12 {
        return Err(CmosError::InvalidDate);
    }
    if pm {
        if hours != 12 {
            hours = hours + 12;
        }
    } else if hours == 12 {
        hours = 0;
    }
    Ok(hours)
}

/// The moment behind a reading.
pub fn decode_snapshot(raw: RawRtc, status_b: u8) -> (result: Result<DateTime, CmosError>)
    ensures
        result == moment(raw, status_b),
{
    let binary: bool = status_b & STATUS_B_BINARY != 0;
    let hours_24: bool = status_b & STATUS_B_24_HOUR != 0;
    let hours: u8 = match decode_hours(raw.hours, binary, hours_24) {
        Ok(hours) => hours,
        Err(error) => {
            return Err(error);
        },
    };
    let year_low: u8 = match decode_field(raw.year, binary) {
        Ok(value) => value,
        Err(error) => {
            return Err(error);
        },
    };
    let century: u8 = if raw.century == 0 {
        20
    } else {
        match decode_field(raw.century, binary) {
            Ok(value) => value,
            Err(error) => {
                return Err(error);
            },
        }
    };
    let seconds: u8 = match decode_field(raw.seconds, binary) {
        Ok(value) => value,
        Err(error) => {
            return Err(error);
        },
    };
    let minutes: u8 = match decode_field(raw.minutes, binary) {
        Ok(value) => value,
        Err(error) => {
            return Err(error);
        },
    };
    let day: u8 = match decode_field(raw.day, binary) {
        Ok(value) => value,
        Err(error) => {
            return Err(error);
        },
    };
    let month: u8 = match decode_field(raw.month, binary) {
        Ok(value) => value,
        Err(error) => {
            return Err(error);
        },
    };
    let datetime = DateTime {
        seconds,
        minutes,
        hours,
        day,
        month,
        year: century as u16 * 100 + year_low as u16,
    };
    match validate(datetime) {
        Ok(_) => Ok(datetime),
        Err(error) => Err(error),
    }
}

/// The hours register for an hour of the day.
pub open spec fn hour_register(hours: u8, binary: bool, hours_24: bool) -> u8 {
    if hours_24 {
        field_of(hours, binary)
    } else {
        let hour = if hours % 12 == 0 {
            12u8
        } else {
            (hours % 12) as u8
        };
        field_of(hour, binary) | if hours >= 12 {
            0x80u8
        } else {
            0u8
        }
    }
}

/// The registers for a moment.
pub open spec fn registers_of(datetime: DateTime, status_b: u8) -> RawRtc {
    let binary = status_b & STATUS_B_BINARY != 0;
    let hours_24 = status_b & STATUS_B_24_HOUR != 0;
    RawRtc {
        seconds: field_of(datetime.seconds, binary),
        minutes: field_of(datetime.minutes, binary),
        hours: hour_register(datetime.hours, binary, hours_24),
        day: field_of(datetime.day, binary),
        month: field_of(datetime.month, binary),
        year: field_of((datetime.year % 100) as u8, binary),
        century: field_of((datetime.year / 100) as u8, binary),
    }
}

proof fn lemma_field_round_trip(value: u8, binary: bool)
    requires
        value <= 99,
    ensures
        field_value(field_of(value, binary), binary) == Ok::<u8, CmosError>(value),
        value != 0 ==> field_of(value, binary) != 0,
        value <= 12 ==> field_of(value, binary) & 0x80 == 0,
        value <= 12 ==> field_of(value, binary) & 0x7F == field_of(value, binary),
        value <= 12 ==> (field_of(value, binary) | 0x80) & 0x7F == field_of(value, binary),
        value <= 12 ==> (field_of(value, binary) | 0x80) & 0x80 != 0,
{
    lemma_bcd_bits(value);
    lemma_top_bit(field_of(value, binary));
    lemma_top_bit(value);
}

proof fn lemma_top_bit(field: u8)
    by (bit_vector)
    ensures
        field < 0x80 ==> field & 0x80 == 0,
        field < 0x80 ==> field & 0x7F == field,
        field & 0x80 == 0 ==> field < 0x80,
        field < 0x80 ==> (field | 0x80) & 0x7F == field,
        (field | 0x80) & 0x80 != 0,
        field | 0 == field,
{
}

/// An hour that is written is the one that is read back.
proof fn lemma_hour_round_trip(hours: u8, binary: bool, hours_24: bool)
    requires
        hours <= 23,
    ensures
        hour_of(hour_register(hours, binary, hours_24), binary, hours_24) == Ok::<u8, CmosError>(
            hours,
        ),
{
    lemma_field_round_trip(hours, binary);
    let hour = if hours % 12 == 0 {
        12u8
    } else {
        (hours % 12) as u8
    };
    lemma_field_round_trip(hour, binary);
    lemma_top_bit(field_of(hour, binary));
}

/// A moment that is written is the one that is read back, whatever the mode of
/// the clock.
pub proof fn lemma_clock_round_trip(datetime: DateTime, status_b: u8)
    requires
        is_valid(datetime),
        datetime.year >= 100,
    ensures
        moment(registers_of(datetime, status_b), status_b) == Ok::<DateTime, CmosError>(datetime),
{
    let binary = status_b & STATUS_B_BINARY != 0;
    let hours_24 = status_b & STATUS_B_24_HOUR != 0;
    lemma_field_round_trip(datetime.seconds, binary);
    lemma_field_round_trip(datetime.minutes, binary);
    lemma_hour_round_trip(datetime.hours, binary, hours_24);
    lemma_field_round_trip(datetime.day, binary);
    lemma_field_round_trip(datetime.month, binary);
    lemma_field_round_trip((datetime.year % 100) as u8, binary);
    lemma_field_round_trip((datetime.year / 100) as u8, binary);
    assert((datetime.year / 100) * 100 + datetime.year % 100 == datetime.year);
}

/// Read the clock.
pub fn rtc_now<M: Machine>(cmos: &Cmos, machine: &mut M) -> (result: Result<DateTime, CmosError>)
    ensures
        (result, final(machine).io()) == cmos.now_run(
            SNAPSHOT_ATTEMPTS as nat,
            old(machine).io(),
        ),
{
    let mut attempts: usize = SNAPSHOT_ATTEMPTS;
    while attempts > 0
        invariant
            cmos.now_run(SNAPSHOT_ATTEMPTS as nat, old(machine).io()) == cmos.now_run(
                attempts as nat,
                machine.io(),
            ),
        decreases attempts,
    {
        match wait_update_complete(cmos, machine) {
            Ok(_) => {},
            Err(error) => {
                return Err(error);
            },
        }
        let first: RawRtc = cmos.raw_snapshot(machine);
        let status_b: u8 = cmos.read_register(machine, REG_STATUS_B);
        match wait_update_complete(cmos, machine) {
            Ok(_) => {},
            Err(error) => {
                return Err(error);
            },
        }
        let second: RawRtc = cmos.raw_snapshot(machine);
        if first == second {
            return decode_snapshot(second, status_b);
        }
        attempts = attempts - 1;
    }
    Err(CmosError::UnstableClock)
}

/// Set the clock; its mode stays as it is.
pub fn rtc_set<M: Machine>(cmos: &Cmos, machine: &mut M, datetime: DateTime) -> (result: Result<
    (),
    CmosError,
>)
    ensures
        (result, final(machine).io()) == cmos.set_run(datetime, old(machine).io()),
{
    match validate(datetime) {
        Ok(_) => {},
        Err(error) => {
            return Err(error);
        },
    }
    match wait_update_complete(cmos, machine) {
        Ok(_) => {},
        Err(error) => {
            return Err(error);
        },
    }
    let status_b: u8 = cmos.read_register(machine, REG_STATUS_B);
    let binary: bool = status_b & STATUS_B_BINARY != 0;
    let hours_24: bool = status_b & STATUS_B_24_HOUR != 0;
    cmos.write_register(machine, REG_STATUS_B, status_b | STATUS_B_SET);
    let encoded_hours: u8 = if hours_24 {
        encode_field(datetime.hours, binary)
    } else {
        let hour12: u8 = if datetime.hours % 12 == 0 {
            12
        } else {
            datetime.hours % 12
        };
        encode_field(hour12, binary) | if datetime.hours >= 12 {
            0x80
        } else {
            0
        }
    };
    cmos.write_register(machine, REG_SECONDS, encode_field(datetime.seconds, binary));
    cmos.write_register(machine, REG_MINUTES, encode_field(datetime.minutes, binary));
    cmos.write_register(machine, REG_HOURS, encoded_hours);
    cmos.write_register(machine, REG_DAY, encode_field(datetime.day, binary));
    cmos.write_register(machine, REG_MONTH, encode_field(datetime.month, binary));
    cmos.write_register(
        machine,
        REG_YEAR,
        encode_field((datetime.year % 100) as u8, binary),
    );
    cmos.write_register(
        machine,
        REG_CENTURY,
        encode_field((datetime.year / 100) as u8, binary),
    );
    cmos.write_register(machine, REG_STATUS_B, status_b & !STATUS_B_SET);
    Ok(())
}

/// Look at the clock once.
pub fn init<M: Machine>(cmos: &Cmos, machine: &mut M) -> (result: Result<DateTime, CmosError>)
    ensures
        (result, final(machine).io()) == cmos.now_run(
            SNAPSHOT_ATTEMPTS as nat,
            old(machine).io(),
        ),
{
    rtc_now(cmos, machine)
}

/// The clock's memory as the driver goes through it: the cell that is selected,
/// what the cells hold where they were written, and whether every reading gave
/// what a cell holds that nobody writes.
pub struct CellView {
    pub selected: int,
    pub cells: spec_fn(int) -> u8,
    pub faithful: bool,
}

/// A memory behind the ports 0x70, which selects a cell by seven bits, and 0x71,
/// which is that cell.
pub open spec fn cell_step(held: spec_fn(int) -> u8) -> spec_fn(CellView, Access, u64) -> CellView {
    |view: CellView, access: Access, reply: u64|
        match access {
            Access::Write8(Place::Port(0x70), value) => CellView {
                selected: value as int % 128,
                ..view
            },
            Access::Write8(Place::Port(0x71), value) => CellView {
                cells: |cell: int|
                    if cell == view.selected {
                        value
                    } else {
                        (view.cells)(cell)
                    },
                ..view
            },
            Access::Read8(Place::Port(0x71)) => CellView {
                faithful: view.faithful && reply as u8 == held(view.selected),
                ..view
            },
            _ => view,
        }
}

pub open spec fn cell_view(held: spec_fn(int) -> u8, io: Io) -> CellView {
    observed(io, CellView { selected: 0, cells: held, faithful: true }, cell_step(held))
}

/// The number in a cell: as it is where bit two of cell 0x0B is set, else two
/// decimal digits.
pub open spec fn number_in(cells: spec_fn(int) -> u8, value: int) -> int {
    if cells(0x0B) & 4 != 0 {
        value
    } else {
        10 * (value / 16) + value % 16
    }
}

/// The hour in cell 0x04: of the day where bit one of cell 0x0B is set, else of
/// half a day, with the top bit for the afternoon.
pub open spec fn hour_in(cells: spec_fn(int) -> u8) -> int {
    if cells(0x0B) & 2 != 0 {
        number_in(cells, cells(0x04) as int)
    } else {
        number_in(cells, cells(0x04) as int % 128) % 12 + (if cells(0x04) >= 128 {
            12int
        } else {
            0int
        })
    }
}

/// Whether a memory holds a moment: seconds, minutes and hours in the cells 0x00,
/// 0x02 and 0x04, day, month and year in 0x07, 0x08 and 0x09, and the century in
/// 0x32, where none stands for the twentieth.
pub open spec fn holds_moment(cells: spec_fn(int) -> u8, datetime: DateTime) -> bool {
    &&& datetime.seconds == number_in(cells, cells(0x00) as int)
    &&& datetime.minutes == number_in(cells, cells(0x02) as int)
    &&& datetime.hours == hour_in(cells)
    &&& datetime.day == number_in(cells, cells(0x07) as int)
    &&& datetime.month == number_in(cells, cells(0x08) as int)
    &&& datetime.year == (if cells(0x32) == 0 {
        2000
    } else {
        100 * number_in(cells, cells(0x32) as int)
    }) + number_in(cells, cells(0x09) as int)
}

proof fn lemma_cell_bits(value: u8)
    by (bit_vector)
    ensures
        value >> 4 == value / 16,
        value & 0x0F == value % 16,
        value & 0x7F == value % 128,
        value & 0x80 != 0 <==> value >= 128,
        value < 128 ==> (value | 0x80) % 128 == value && (value | 0) % 128 == value,
        (value & !0x80u8) & 4 == value & 4,
        (value & !0x80u8) & 2 == value & 2,
        (value & !0x80u8) & 0x80 == 0,
        (value | 0x80u8) & 0x80 != 0,
{
}

proof fn lemma_read_view(cmos: Cmos, held: spec_fn(int) -> u8, register: u8, io: Io)
    requires
        register < 128,
        cell_view(held, cmos.read_run(register, io).1).faithful,
    ensures
        cell_view(held, io).faithful,
        cmos.read_run(register, io).0 == held(register as int),
{
    broadcast use group_observed;

    lemma_cell_bits(register);
}

proof fn lemma_settle_view(cmos: Cmos, held: spec_fn(int) -> u8, limit: nat, io: Io)
    requires
        cell_view(held, cmos.settle_run(limit, io).1).faithful,
    ensures
        cell_view(held, io).faithful,
        cmos.settle_run(limit, io).0 is Ok ==> held(0x0A) < 128,
    decreases limit,
{
    if limit > 0 {
        let next = cmos.read_run(REG_STATUS_A, io).1;
        if cmos.read_run(REG_STATUS_A, io).0 & STATUS_A_UIP != 0 {
            lemma_settle_view(cmos, held, (limit - 1) as nat, next);
        }
        lemma_read_view(cmos, held, 0x0A, io);
        lemma_cell_bits(cmos.read_run(REG_STATUS_A, io).0);
    }
}

proof fn lemma_snapshot_view(cmos: Cmos, held: spec_fn(int) -> u8, io: Io)
    requires
        cell_view(held, cmos.snapshot_run(io).1).faithful,
    ensures
        cell_view(held, io).faithful,
        cmos.snapshot_run(io).0 == (RawRtc {
            seconds: held(0x00),
            minutes: held(0x02),
            hours: held(0x04),
            day: held(0x07),
            month: held(0x08),
            year: held(0x09),
            century: held(0x32),
        }),
{
    let a = cmos.read_run(0x00, io).1;
    let b = cmos.read_run(0x02, a).1;
    let c = cmos.read_run(0x04, b).1;
    let d = cmos.read_run(0x07, c).1;
    let e = cmos.read_run(0x08, d).1;
    let f = cmos.read_run(0x09, e).1;
    lemma_read_view(cmos, held, 0x32, f);
    lemma_read_view(cmos, held, 0x09, e);
    lemma_read_view(cmos, held, 0x08, d);
    lemma_read_view(cmos, held, 0x07, c);
    lemma_read_view(cmos, held, 0x04, b);
    lemma_read_view(cmos, held, 0x02, a);
    lemma_read_view(cmos, held, 0x00, io);
}

proof fn lemma_number_is_held(held: spec_fn(int) -> u8, value: u8)
    ensures
        field_value(value, held(0x0B) & 4 != 0) is Ok ==> field_value(
            value,
            held(0x0B) & 4 != 0,
        )->Ok_0 == number_in(held, value as int),
{
    lemma_cell_bits(value);
}

proof fn lemma_hour_is_held(held: spec_fn(int) -> u8)
    ensures
        ({
            let hour = hour_of(held(0x04), held(0x0B) & 4 != 0, held(0x0B) & 2 != 0);
            hour is Ok ==> hour->Ok_0 == hour_in(held)
        }),
{
    lemma_number_is_held(held, held(0x04));
    lemma_number_is_held(held, held(0x04) & 0x7F);
    lemma_cell_bits(held(0x04));
}

proof fn lemma_moment_is_held(held: spec_fn(int) -> u8, raw: RawRtc)
    requires
        raw == (RawRtc {
            seconds: held(0x00),
            minutes: held(0x02),
            hours: held(0x04),
            day: held(0x07),
            month: held(0x08),
            year: held(0x09),
            century: held(0x32),
        }),
    ensures
        moment(raw, held(0x0B)) is Ok ==> holds_moment(held, moment(raw, held(0x0B))->Ok_0),
{
    lemma_number_is_held(held, held(0x00));
    lemma_number_is_held(held, held(0x02));
    lemma_hour_is_held(held);
    lemma_number_is_held(held, held(0x07));
    lemma_number_is_held(held, held(0x08));
    lemma_number_is_held(held, held(0x09));
    lemma_number_is_held(held, held(0x32));
}

/// A clock that stands is read as the moment that its memory holds, while it is
/// not changing.
pub proof fn lemma_clock_is_read(cmos: Cmos, held: spec_fn(int) -> u8, attempts: nat, io: Io)
    requires
        cmos.now_run(attempts, io).0 is Ok,
        cell_view(held, cmos.now_run(attempts, io).1).faithful,
    ensures
        holds_moment(held, cmos.now_run(attempts, io).0->Ok_0),
        held(0x0A) < 128,
    decreases attempts,
{
    if attempts > 0 {
        let settled = cmos.settle_run(UIP_POLL_LIMIT as nat, io).1;
        let (first, once) = cmos.snapshot_run(settled);
        let (status, noted) = cmos.read_run(REG_STATUS_B, once);
        let again = cmos.settle_run(UIP_POLL_LIMIT as nat, noted).1;
        let (second, twice) = cmos.snapshot_run(again);
        if first != second {
            lemma_clock_is_read(cmos, held, (attempts - 1) as nat, twice);
        } else {
            lemma_snapshot_view(cmos, held, again);
            lemma_settle_view(cmos, held, UIP_POLL_LIMIT as nat, noted);
            lemma_read_view(cmos, held, 0x0B, once);
            lemma_moment_is_held(held, second);
        }
    }
}

proof fn lemma_write_view(cmos: Cmos, held: spec_fn(int) -> u8, register: u8, value: u8, io: Io)
    requires
        register < 128,
    ensures
        forall|cell: int| #[trigger]
            (cell_view(held, cmos.write_run(register, value, io)).cells)(cell) == (if cell
                == register {
                value
            } else {
                (cell_view(held, io).cells)(cell)
            }),
{
    broadcast use group_observed;

    lemma_cell_bits(register);
}

proof fn lemma_read_keeps_cells(cmos: Cmos, held: spec_fn(int) -> u8, register: u8, io: Io)
    ensures
        cell_view(held, cmos.read_run(register, io).1).cells == cell_view(held, io).cells,
{
    broadcast use group_observed;

}

proof fn lemma_field_in(cells: spec_fn(int) -> u8, value: u8, status: u8)
    requires
        value <= 99,
        cells(0x0B) & 4 == status & 4,
    ensures
        number_in(cells, field_of(value, status & 4 != 0) as int) == value,
{
    lemma_bcd_round_trip(value);
    lemma_cell_bits(field_of(value, status & 4 != 0));
}

proof fn lemma_hour_is_stored(cells: spec_fn(int) -> u8, hours: u8, status: u8)
    requires
        hours <= 23,
        cells(0x0B) & 4 == status & 4,
        cells(0x0B) & 2 == status & 2,
        cells(0x04) == hour_register(hours, status & 4 != 0, status & 2 != 0),
    ensures
        hour_in(cells) == hours,
{
    let binary = status & 4 != 0;
    let hour = if hours % 12 == 0 {
        12u8
    } else {
        (hours % 12) as u8
    };
    lemma_field_in(cells, hours, status);
    lemma_field_in(cells, hour, status);
    lemma_field_round_trip(hour, binary);
    lemma_top_bit(field_of(hour, binary));
    lemma_cell_bits(cells(0x04));
    lemma_cell_bits(field_of(hour, binary));
}

proof fn lemma_moment_is_stored(cells: spec_fn(int) -> u8, datetime: DateTime, status: u8)
    requires
        is_valid(datetime),
        datetime.year >= 100,
        cells(0x0B) & 4 == status & 4,
        cells(0x0B) & 2 == status & 2,
        registers_of(datetime, status) == (RawRtc {
            seconds: cells(0x00),
            minutes: cells(0x02),
            hours: cells(0x04),
            day: cells(0x07),
            month: cells(0x08),
            year: cells(0x09),
            century: cells(0x32),
        }),
    ensures
        holds_moment(cells, datetime),
{
    lemma_field_in(cells, datetime.seconds, status);
    lemma_field_in(cells, datetime.minutes, status);
    lemma_hour_is_stored(cells, datetime.hours, status);
    lemma_field_in(cells, datetime.day, status);
    lemma_field_in(cells, datetime.month, status);
    lemma_field_in(cells, (datetime.year % 100) as u8, status);
    lemma_field_in(cells, (datetime.year / 100) as u8, status);
    lemma_field_round_trip((datetime.year / 100) as u8, status & 4 != 0);
}

/// Setting the clock leaves the moment in its memory, and lets it run again.
pub proof fn lemma_clock_is_set(cmos: Cmos, held: spec_fn(int) -> u8, datetime: DateTime, io: Io)
    requires
        cmos.set_run(datetime, io).0 is Ok,
        datetime.year >= 100,
    ensures
        ({
            let cells = cell_view(held, cmos.set_run(datetime, io).1).cells;
            &&& holds_moment(cells, datetime)
            &&& cells(0x0B) & 0x80 == 0
            &&& 1 <= datetime.month <= 12
            &&& 1 <= datetime.day <= 31
            &&& datetime.hours <= 23
            &&& datetime.minutes <= 59
            &&& datetime.seconds <= 59
        }),
{
    let settled = cmos.settle_run(UIP_POLL_LIMIT as nat, io).1;
    let (status, noted) = cmos.read_run(REG_STATUS_B, settled);
    lemma_read_keeps_cells(cmos, held, REG_STATUS_B, settled);
    let raw = registers_of(datetime, status);
    let stopped = cmos.write_run(REG_STATUS_B, status | STATUS_B_SET, noted);
    let a = cmos.write_run(0x00, raw.seconds, stopped);
    let b = cmos.write_run(0x02, raw.minutes, a);
    let c = cmos.write_run(0x04, raw.hours, b);
    let d = cmos.write_run(0x07, raw.day, c);
    let e = cmos.write_run(0x08, raw.month, d);
    let f = cmos.write_run(0x09, raw.year, e);
    let g = cmos.write_run(0x32, raw.century, f);
    let last = cmos.write_run(REG_STATUS_B, status & !STATUS_B_SET, g);
    lemma_write_view(cmos, held, 0x00, raw.seconds, stopped);
    lemma_write_view(cmos, held, 0x02, raw.minutes, a);
    lemma_write_view(cmos, held, 0x04, raw.hours, b);
    lemma_write_view(cmos, held, 0x07, raw.day, c);
    lemma_write_view(cmos, held, 0x08, raw.month, d);
    lemma_write_view(cmos, held, 0x09, raw.year, e);
    lemma_write_view(cmos, held, 0x32, raw.century, f);
    lemma_write_view(cmos, held, 0x0B, status & !STATUS_B_SET, g);
    lemma_cell_bits(status);
    lemma_moment_is_stored(cell_view(held, last).cells, datetime, status);
}

/// The months of a year take turns at 31 and 30 days, twice beginning anew, but for
/// the second; together they have 365 days, and one more in a leap year.  A moment
/// exists exactly where its day is one of its month.
pub proof fn lemma_calendar(year: int, month: u8, datetime: DateTime)
    ensures
        ({
            let days = |month: u8| month_length(year, month)->0 as int;
            let leap = year % 400 == 0 || (year % 4 == 0 && year % 100 != 0);
            &&& month_length(year, month) is Some <==> 1 <= month <= 12
            &&& 1 <= month <= 12 && month != 2 ==> days(month) == 30 + (month + month as int / 8)
                % 2
            &&& days(1) + days(2) + days(3) + days(4) + days(5) + days(6) + days(7) + days(8)
                + days(9) + days(10) + days(11) + days(12) == (if leap {
                366int
            } else {
                365
            })
        }),
        is_valid(datetime) <==> 1 <= datetime.year <= 9999 && 1 <= datetime.month <= 12 && 1
            <= datetime.day <= month_length(datetime.year as int, datetime.month)->0
            && datetime.hours < 24 && datetime.minutes < 60 && datetime.seconds < 60,
{
}

proof fn lemma_settled_at_once(cmos: Cmos, held: spec_fn(int) -> u8, limit: nat, io: Io)
    requires
        limit > 0,
        held(0x0A) < 128,
        cell_view(held, cmos.settle_run(limit, io).1).faithful,
    ensures
        cmos.settle_run(limit, io).0 is Ok,
        cell_view(held, io).faithful,
{
    let (status, next) = cmos.read_run(REG_STATUS_A, io);
    lemma_settle_view(cmos, held, limit, io);
    if status & STATUS_A_UIP != 0 {
        lemma_settle_view(cmos, held, (limit - 1) as nat, next);
        lemma_read_view(cmos, held, 0x0A, io);
        lemma_cell_bits(status);
    }
}

/// What was set is read back: a clock that was set to a moment, and stands where it was
/// left, is read as that moment.
pub proof fn lemma_set_is_read_back(
    cmos: Cmos,
    held: spec_fn(int) -> u8,
    datetime: DateTime,
    io: Io,
    attempts: nat,
    later: Io,
)
    requires
        cmos.set_run(datetime, io).0 is Ok,
        datetime.year >= 100,
        attempts > 0,
        ({
            let cells = cell_view(held, cmos.set_run(datetime, io).1).cells;
            cells(0x0A) < 128 && cell_view(cells, cmos.now_run(attempts, later).1).faithful
        }),
    ensures
        cmos.now_run(attempts, later).0 == Ok::<DateTime, CmosError>(datetime),
{
    let limit = UIP_POLL_LIMIT as nat;
    let cells = cell_view(held, cmos.set_run(datetime, io).1).cells;
    let status = lemma_set_leaves_registers(cmos, held, datetime, io);
    let settled = cmos.settle_run(limit, later).1;
    let (first, once) = cmos.snapshot_run(settled);
    let (b, noted) = cmos.read_run(REG_STATUS_B, once);
    let again = cmos.settle_run(limit, noted).1;
    let (second, twice) = cmos.snapshot_run(again);
    if cmos.settle_run(limit, later).0 is Ok && cmos.settle_run(limit, noted).0 is Ok {
        if first == second {
            lemma_snapshot_view(cmos, cells, again);
            lemma_settle_view(cmos, cells, limit, noted);
            lemma_read_view(cmos, cells, 0x0B, once);
            lemma_snapshot_view(cmos, cells, settled);
        } else {
            lemma_now_view(cmos, cells, (attempts - 1) as nat, twice);
            lemma_snapshot_view(cmos, cells, again);
            lemma_settle_view(cmos, cells, limit, noted);
            lemma_read_view(cmos, cells, 0x0B, once);
            lemma_snapshot_view(cmos, cells, settled);
        }
    } else if cmos.settle_run(limit, later).0 is Ok {
        lemma_settled_at_once(cmos, cells, limit, noted);
    } else {
        lemma_settled_at_once(cmos, cells, limit, later);
    }
    lemma_clock_round_trip(datetime, status);
    assert(moment(second, b) == moment(second, status));
}

proof fn lemma_now_view(cmos: Cmos, held: spec_fn(int) -> u8, attempts: nat, io: Io)
    requires
        cell_view(held, cmos.now_run(attempts, io).1).faithful,
    ensures
        cell_view(held, io).faithful,
    decreases attempts,
{
    if attempts > 0 {
        let limit = UIP_POLL_LIMIT as nat;
        let settled = cmos.settle_run(limit, io).1;
        let once = cmos.snapshot_run(settled).1;
        let noted = cmos.read_run(REG_STATUS_B, once).1;
        let again = cmos.settle_run(limit, noted).1;
        let twice = cmos.snapshot_run(again).1;
        if cmos.settle_run(limit, io).0 is Ok {
            if cmos.settle_run(limit, noted).0 is Ok {
                if cmos.snapshot_run(settled).0 != cmos.snapshot_run(again).0 {
                    lemma_now_view(cmos, held, (attempts - 1) as nat, twice);
                }
                lemma_snapshot_view(cmos, held, again);
            }
            lemma_settle_view(cmos, held, limit, noted);
            lemma_read_view(cmos, held, 0x0B, once);
            lemma_snapshot_view(cmos, held, settled);
        }
        lemma_settle_view(cmos, held, limit, io);
    }
}

proof fn lemma_set_leaves_registers(
    cmos: Cmos,
    held: spec_fn(int) -> u8,
    datetime: DateTime,
    io: Io,
) -> (status: u8)
    requires
        cmos.set_run(datetime, io).0 is Ok,
    ensures
        ({
            let cells = cell_view(held, cmos.set_run(datetime, io).1).cells;
            &&& cells(0x0B) & 4 == status & 4
            &&& cells(0x0B) & 2 == status & 2
            &&& registers_of(datetime, status) == (RawRtc {
                seconds: cells(0x00),
                minutes: cells(0x02),
                hours: cells(0x04),
                day: cells(0x07),
                month: cells(0x08),
                year: cells(0x09),
                century: cells(0x32),
            })
            &&& is_valid(datetime)
        }),
{
    let settled = cmos.settle_run(UIP_POLL_LIMIT as nat, io).1;
    let (status, noted) = cmos.read_run(REG_STATUS_B, settled);
    let raw = registers_of(datetime, status);
    let stopped = cmos.write_run(REG_STATUS_B, status | STATUS_B_SET, noted);
    let a = cmos.write_run(0x00, raw.seconds, stopped);
    let b = cmos.write_run(0x02, raw.minutes, a);
    let c = cmos.write_run(0x04, raw.hours, b);
    let d = cmos.write_run(0x07, raw.day, c);
    let e = cmos.write_run(0x08, raw.month, d);
    let f = cmos.write_run(0x09, raw.year, e);
    let g = cmos.write_run(0x32, raw.century, f);
    lemma_write_view(cmos, held, 0x00, raw.seconds, stopped);
    lemma_write_view(cmos, held, 0x02, raw.minutes, a);
    lemma_write_view(cmos, held, 0x04, raw.hours, b);
    lemma_write_view(cmos, held, 0x07, raw.day, c);
    lemma_write_view(cmos, held, 0x08, raw.month, d);
    lemma_write_view(cmos, held, 0x09, raw.year, e);
    lemma_write_view(cmos, held, 0x32, raw.century, f);
    lemma_write_view(cmos, held, 0x0B, status & !STATUS_B_SET, g);
    lemma_cell_bits(status);
    status
}

} // verus!
