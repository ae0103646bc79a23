use xenith_devices::cmos::{
    decode_bcd, decode_snapshot, encode_bcd, get, init, nmi_disabled, nvram_get, nvram_set,
    rtc_now, rtc_set, set_nmi_disabled, validate, Cmos, CmosError, DateTime, RawRtc,
    STATUS_B_24_HOUR, STATUS_B_BINARY,
};
use xenith_devices::machine::{Access, Io, Machine, Order, Place, Query};

/// A machine whose replies come out of a closure.
struct Fake<F: FnMut(Access) -> u64> {
    respond: F,
    log: Vec<Access>,
}

impl<F: FnMut(Access) -> u64> Fake<F> {
    fn new(respond: F) -> Self {
        Fake {
            respond,
            log: Vec::new(),
        }
    }

    fn touch(&mut self, access: Access) -> u64 {
        self.log.push(access);
        (self.respond)(access)
    }
}

impl<F: FnMut(Access) -> u64> Machine for Fake<F> {
    fn io(&self) -> Io {
        unreachable!()
    }

    fn read8(&mut self, place: Place) -> u8 {
        self.touch(Access::Read8(place)) as u8
    }

    fn read16(&mut self, place: Place) -> u16 {
        self.touch(Access::Read16(place)) as u16
    }

    fn read32(&mut self, place: Place) -> u32 {
        self.touch(Access::Read32(place)) as u32
    }

    fn read64(&mut self, place: Place) -> u64 {
        self.touch(Access::Read64(place))
    }

    fn write8(&mut self, place: Place, value: u8) {
        self.touch(Access::Write8(place, value));
    }

    fn write16(&mut self, place: Place, value: u16) {
        self.touch(Access::Write16(place, value));
    }

    fn write32(&mut self, place: Place, value: u32) {
        self.touch(Access::Write32(place, value));
    }

    fn write64(&mut self, place: Place, value: u64) {
        self.touch(Access::Write64(place, value));
    }

    fn ask(&mut self, query: Query) -> u64 {
        self.touch(Access::Ask(query))
    }

    fn tell(&mut self, order: Order) {
        self.touch(Access::Tell(order));
    }
}

/// The battery-backed memory behind its two ports.
fn memory<'a>(cells: &'a mut [u8; 128], selected: &'a mut u8) -> impl FnMut(Access) -> u64 + 'a {
    move |access| match access {
        Access::Write8(Place::Port(0x70), value) => {
            *selected = value & 0x7F;
            0
        }
        Access::Write8(Place::Port(0x71), value) => {
            cells[*selected as usize] = value;
            0
        }
        Access::Read8(Place::Port(0x71)) => u64::from(cells[*selected as usize]),
        _ => 0,
    }
}

#[test]
fn bcd_conversion_rejects_invalid_digits() {
    assert_eq!(decode_bcd(0x59), Ok(59));
    assert_eq!(decode_bcd(0x6A), Err(CmosError::InvalidBcd));
}

#[test]
fn twelve_hour_midnight_and_noon_decode() {
    let base = RawRtc {
        seconds: 0,
        minutes: 0,
        hours: 12,
        day: 1,
        month: 1,
        year: 26,
        century: 20,
    };
    assert_eq!(decode_snapshot(base, STATUS_B_BINARY).unwrap().hours, 0);
    assert_eq!(
        decode_snapshot(
            RawRtc {
                hours: 0x80 | 12,
                ..base
            },
            STATUS_B_BINARY
        )
        .unwrap()
        .hours,
        12
    );
}

#[test]
fn calendar_validation_handles_leap_day() {
    let leap = DateTime {
        seconds: 0,
        minutes: 0,
        hours: 0,
        day: 29,
        month: 2,
        year: 2024,
    };
    assert_eq!(validate(leap), Ok(()));
    assert_eq!(
        validate(DateTime { year: 2023, ..leap }),
        Err(CmosError::InvalidDate)
    );
}

#[test]
fn digits_lead_back_to_their_number() {
    for value in 0..100 {
        assert_eq!(decode_bcd(encode_bcd(value)), Ok(value));
    }
    assert_eq!(encode_bcd(59), 0x59);
    assert_eq!(decode_bcd(0xA0), Err(CmosError::InvalidBcd));
}

#[test]
fn clock_gives_back_what_was_set_in_every_mode() {
    let moments = [
        DateTime {
            seconds: 59,
            minutes: 58,
            hours: 0,
            day: 29,
            month: 2,
            year: 2024,
        },
        DateTime {
            seconds: 0,
            minutes: 1,
            hours: 12,
            day: 31,
            month: 12,
            year: 1999,
        },
        DateTime {
            seconds: 7,
            minutes: 7,
            hours: 23,
            day: 1,
            month: 1,
            year: 9999,
        },
    ];
    for mode in [0, STATUS_B_BINARY, STATUS_B_24_HOUR, STATUS_B_BINARY | STATUS_B_24_HOUR] {
        for moment in moments {
            let mut cells = [0u8; 128];
            cells[0x0B] = mode;
            let mut selected = 0;
            let cmos = Cmos::new();
            let mut machine = Fake::new(memory(&mut cells, &mut selected));
            assert_eq!(rtc_set(&cmos, &mut machine, moment), Ok(()));
            assert_eq!(rtc_now(&cmos, &mut machine), Ok(moment));
            assert_eq!(init(&cmos, &mut machine), Ok(moment));
            drop(machine);
            assert_eq!(cells[0x0B], mode);
        }
    }
}

#[test]
fn missing_century_is_the_twenty_first() {
    let raw = RawRtc {
        seconds: 1,
        minutes: 2,
        hours: 3,
        day: 4,
        month: 5,
        year: 0x26,
        century: 0,
    };
    let read = decode_snapshot(raw, STATUS_B_24_HOUR).unwrap();
    assert_eq!(read.year, 2026);
    assert_eq!(read.hours, 3);
}

#[test]
fn readings_that_make_no_sense_are_refused() {
    let base = RawRtc {
        seconds: 0,
        minutes: 0,
        hours: 1,
        day: 1,
        month: 1,
        year: 26,
        century: 20,
    };
    assert_eq!(
        decode_snapshot(RawRtc { hours: 0, ..base }, STATUS_B_BINARY),
        Err(CmosError::InvalidDate)
    );
    assert_eq!(
        decode_snapshot(RawRtc { hours: 13, ..base }, STATUS_B_BINARY),
        Err(CmosError::InvalidDate)
    );
    assert_eq!(
        decode_snapshot(RawRtc { month: 13, ..base }, STATUS_B_BINARY),
        Err(CmosError::InvalidDate)
    );
    assert_eq!(
        decode_snapshot(RawRtc { seconds: 0x1F, ..base }, STATUS_B_24_HOUR),
        Err(CmosError::InvalidBcd)
    );
}

#[test]
fn moments_that_do_not_exist_are_refused() {
    let base = DateTime {
        seconds: 0,
        minutes: 0,
        hours: 0,
        day: 28,
        month: 2,
        year: 1900,
    };
    assert_eq!(validate(base), Ok(()));
    for wrong in [
        DateTime { day: 29, ..base },
        DateTime { day: 0, ..base },
        DateTime { month: 0, ..base },
        DateTime { month: 13, ..base },
        DateTime { hours: 24, ..base },
        DateTime { minutes: 60, ..base },
        DateTime { seconds: 60, ..base },
        DateTime { year: 0, ..base },
        DateTime { year: 10_000, ..base },
        DateTime { day: 31, month: 4, ..base },
    ] {
        assert_eq!(validate(wrong), Err(CmosError::InvalidDate));
        let mut machine = Fake::new(|_| 0);
        assert_eq!(
            rtc_set(&Cmos::new(), &mut machine, wrong),
            Err(CmosError::InvalidDate)
        );
        assert!(machine.log.is_empty());
    }
    assert_eq!(
        validate(DateTime {
            day: 29,
            year: 2000,
            ..base
        }),
        Ok(())
    );
}

#[test]
fn registers_end_at_their_number() {
    let mut cells = [0u8; 128];
    let mut selected = 0;
    let cmos = Cmos::new();
    let mut machine = Fake::new(memory(&mut cells, &mut selected));
    assert_eq!(xenith_devices::cmos::set(&cmos, &mut machine, 0x7F, 0xAB), Ok(()));
    assert_eq!(get(&cmos, &mut machine, 0x7F), Ok(0xAB));
    assert_eq!(nvram_set(&cmos, &mut machine, 0x40, 0xCD), Ok(()));
    assert_eq!(nvram_get(&cmos, &mut machine, 0x40), Ok(0xCD));
    let before = machine.log.len();
    assert_eq!(
        get(&cmos, &mut machine, 128),
        Err(CmosError::InvalidRegister(128))
    );
    assert_eq!(
        nvram_set(&cmos, &mut machine, 255, 0),
        Err(CmosError::InvalidRegister(255))
    );
    assert_eq!(machine.log.len(), before);
}

#[test]
fn interrupt_switch_goes_into_every_selector() {
    let mut cmos = Cmos::new();
    let mut machine = Fake::new(|_| 0);
    set_nmi_disabled(&mut cmos, &mut machine, true);
    assert!(nmi_disabled(&cmos));
    let _ = get(&cmos, &mut machine, 0x10);
    assert_eq!(
        machine.log,
        vec![
            Access::Write8(Place::Port(0x70), 0x8A),
            Access::Write8(Place::Port(0x70), 0x90),
            Access::Tell(Order::IoWait),
            Access::Read8(Place::Port(0x71)),
        ]
    );
}

#[test]
fn clock_that_always_updates_times_out() {
    struct Busy {
        reads: u64,
    }
    impl Machine for Busy {
        fn io(&self) -> Io {
            unreachable!()
        }
        fn read8(&mut self, _place: Place) -> u8 {
            self.reads += 1;
            0x80
        }
        fn read16(&mut self, _place: Place) -> u16 {
            0
        }
        fn read32(&mut self, _place: Place) -> u32 {
            0
        }
        fn read64(&mut self, _place: Place) -> u64 {
            0
        }
        fn write8(&mut self, _place: Place, _value: u8) {}
        fn write16(&mut self, _place: Place, _value: u16) {}
        fn write32(&mut self, _place: Place, _value: u32) {}
        fn write64(&mut self, _place: Place, _value: u64) {}
        fn ask(&mut self, _query: Query) -> u64 {
            0
        }
        fn tell(&mut self, _order: Order) {}
    }
    let mut machine = Busy { reads: 0 };
    assert_eq!(
        rtc_now(&Cmos::new(), &mut machine),
        Err(CmosError::UpdateTimeout)
    );
    assert_eq!(machine.reads, 2_000_000);
}

#[test]
fn clock_that_never_agrees_with_itself_is_unstable() {
    let mut count = 0u64;
    let mut selected = 0;
    let mut machine = Fake::new(move |access| match access {
        Access::Write8(Place::Port(0x70), value) => {
            selected = value;
            0
        }
        Access::Read8(_) => {
            if selected == 0x0A {
                0
            } else {
                count += 1;
                count & 0x3F
            }
        }
        _ => 0,
    });
    assert_eq!(
        rtc_now(&Cmos::new(), &mut machine),
        Err(CmosError::UnstableClock)
    );
}
