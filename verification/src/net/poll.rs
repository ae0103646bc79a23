//! Handing received frames to the stack.
use vstd::prelude::*;
use crate::machine::{Io, Machine};
use crate::net::{
    interface_id, interface_of, received, Adapter, DriverError, IngressOutcome, Network,
    NetworkAdapter, NetworkModel, OutboundFrame, PollReport, MAX_FRAME_LEN,
};

verus! {

/// A pass over the adapters under way: what was handed to the stack so far,
/// each frame with its interface.
#[verifier::ext_equal]
pub struct Pass {
    pub network: NetworkModel,
    pub report: PollReport,
    pub handed: Seq<(u16, Seq<u8>)>,
    pub io: Io,
}

/// What the stack answers to its first, second ... frame.
pub type Answers = spec_fn(nat) -> IngressOutcome;

impl Pass {
    pub open spec fn with_adapter(self, index: int, adapter: Adapter) -> Pass {
        Pass {
            network: NetworkModel {
                adapters: self.network.adapters.update(index, adapter),
                ..self.network
            },
            ..self
        }
    }

    /// One frame was received and handed on.
    pub open spec fn hand(self, interface: u16, frame: Seq<u8>) -> Pass {
        Pass {
            report: PollReport { received: self.report.received.wrapping_add(1), ..self.report },
            handed: self.handed.push((interface, frame)),
            ..self
        }
    }

    pub open spec fn driver_error(self) -> Pass {
        Pass {
            report: PollReport {
                driver_errors: self.report.driver_errors.wrapping_add(1),
                ..self.report
            },
            ..self
        }
    }

    /// Act on what the stack answered: a reply goes out through the adapter
    /// that received the frame, and through no other.
    pub open spec fn act(self, index: int, interface: u16, outcome: IngressOutcome) -> Pass {
        match outcome {
            IngressOutcome::Reply(reply) => if reply.interface == interface {
                let (result, adapter, io) = self.network.adapters[index].transmit_run(
                    reply.bytes@,
                    self.io,
                );
                let sent = Pass { io, ..self.with_adapter(index, adapter) };
                if result is Ok {
                    Pass {
                        report: PollReport {
                            replies: self.report.replies.wrapping_add(1),
                            ..self.report
                        },
                        ..sent
                    }
                } else {
                    sent.driver_error()
                }
            } else {
                self.driver_error()
            },
            IngressOutcome::Delivered => Pass {
                report: PollReport {
                    delivered: self.report.delivered.wrapping_add(1),
                    ..self.report
                },
                ..self
            },
            IngressOutcome::Ignored | IngressOutcome::PortUnreachable(_) => Pass {
                report: PollReport { dropped: self.report.dropped.wrapping_add(1), ..self.report },
                ..self
            },
            IngressOutcome::Failed => Pass {
                report: PollReport {
                    stack_errors: self.report.stack_errors.wrapping_add(1),
                    ..self.report
                },
                ..self
            },
        }
    }
}

/// Drain an adapter of `left` frames at most.  Whether that many came.
pub open spec fn drain_run(
    answers: Answers,
    index: int,
    interface: u16,
    left: nat,
    pass: Pass,
) -> (bool, Pass)
    decreases left,
{
    if left == 0 {
        (true, pass)
    } else {
        let (result, adapter, io) = pass.network.adapters[index].receive_run(
            MAX_FRAME_LEN as nat,
            pass.io,
        );
        let polled = Pass { io, ..pass.with_adapter(index, adapter) };
        match result {
            Err(error) => if error == DriverError::NoPacket {
                (false, polled)
            } else {
                (false, polled.driver_error())
            },
            Ok(frame) => {
                let outcome = answers(pass.handed.len());
                drain_run(
                    answers,
                    index,
                    interface,
                    (left - 1) as nat,
                    polled.hand(interface, frame).act(index, interface, outcome),
                )
            },
        }
    }
}

/// What is done behind an adapter: where it may have more, that is noted; else
/// its interrupt is enabled again.
pub open spec fn after_run(index: int, more: bool, pass: Pass) -> Pass {
    let network = if more {
        pass.network.marked(index)
    } else {
        pass.network
    };
    Pass { network, io: network.finish_run(index as usize, pass.io), ..pass }
}

/// Serve the adapters from number `index` on.
pub open spec fn adapters_run(answers: Answers, budget: nat, index: int, pass: Pass) -> Pass
    decreases pass.network.adapters.len() - index,
    when 0 <= index
    via adapters_run_ends
{
    if index >= pass.network.adapters.len() {
        pass
    } else {
        let begun = Pass { network: pass.network.begun(index), ..pass };
        match interface_of(index) {
            None => adapters_run(
                answers,
                budget,
                index + 1,
                after_run(index, false, begun.driver_error()),
            ),
            Some(interface) => {
                let (more, drained) = drain_run(answers, index, interface, budget, begun);
                adapters_run(answers, budget, index + 1, after_run(index, more, drained))
            },
        }
    }
}

#[via_fn]
proof fn adapters_run_ends(answers: Answers, budget: nat, index: int, pass: Pass) {
    let begun = Pass { network: pass.network.begun(index), ..pass };
    if index < pass.network.adapters.len() {
        match interface_of(index) {
            None => {},
            Some(interface) => {
                lemma_drain_keeps_count(answers, index, interface, budget, begun);
            },
        }
    }
}

proof fn lemma_drain_keeps_count(
    answers: Answers,
    index: int,
    interface: u16,
    left: nat,
    pass: Pass,
)
    requires
        0 <= index < pass.network.adapters.len(),
    ensures
        drain_run(answers, index, interface, left, pass).1.network.adapters.len()
            == pass.network.adapters.len(),
    decreases left,
{
    if left > 0 {
        let (result, adapter, io) = pass.network.adapters[index].receive_run(
            MAX_FRAME_LEN as nat,
            pass.io,
        );
        let polled = Pass { io, ..pass.with_adapter(index, adapter) };
        match result {
            Err(_) => {},
            Ok(frame) => {
                let outcome = answers(pass.handed.len());
                lemma_drain_keeps_count(
                    answers,
                    index,
                    interface,
                    (left - 1) as nat,
                    polled.hand(interface, frame).act(index, interface, outcome),
                );
            },
        }
    }
}

/// A whole pass over the adapters.
pub open spec fn poll_run(network: NetworkModel, budget: nat, answers: Answers, io: Io) -> Pass {
    let start = Pass { network, report: PollReport::none(), handed: Seq::empty(), io };
    if budget == 0 {
        start
    } else {
        adapters_run(answers, budget, 0, start)
    }
}

/// Whether answers are the ones that were given so far.
spec fn agrees(answers: Answers, given: Seq<IngressOutcome>) -> bool {
    forall|i: nat| i < given.len() ==> #[trigger] answers(i) == given[i as int]
}

/// Whether the stack can have answered a frame in a way.
pub open spec fn can_answer<F: Fn(u16, &[u8], u64) -> IngressOutcome>(
    ingest: F,
    frame: (u16, Seq<u8>),
    now: u64,
    outcome: IngressOutcome,
) -> bool {
    exists|bytes: &[u8]| #[trigger]
        bytes@ == frame.1 && call_ensures(ingest, (frame.0, bytes, now), outcome)
}

fn act<M: Machine>(
    network: &mut Network,
    machine: &mut M,
    report: &mut PollReport,
    index: usize,
    interface: u16,
    outcome: &IngressOutcome,
    Ghost(handed): Ghost<Seq<(u16, Seq<u8>)>>,
)
    requires
        index < old(network)@.adapters.len(),
    ensures
        (Pass {
            network: final(network)@,
            report: *final(report),
            handed,
            io: final(machine).io(),
        }) == (Pass {
            network: old(network)@,
            report: *old(report),
            handed,
            io: old(machine).io(),
        }).act(index as int, interface, *outcome),
{
    match outcome {
        IngressOutcome::Reply(reply) => {
            if reply.interface == interface {
                let ghost before = network@;
                let result = network.adapters[index].transmit(machine, reply.bytes.as_slice());
                assert(network@.adapters =~= before.adapters.update(
                    index as int,
                    network@.adapters[index as int],
                ));
                if result.is_ok() {
                    report.replies = report.replies.wrapping_add(1);
                } else {
                    report.driver_errors = report.driver_errors.wrapping_add(1);
                }
            } else {
                report.driver_errors = report.driver_errors.wrapping_add(1);
            }
        },
        IngressOutcome::Delivered => {
            report.delivered = report.delivered.wrapping_add(1);
        },
        IngressOutcome::Ignored | IngressOutcome::PortUnreachable(_) => {
            report.dropped = report.dropped.wrapping_add(1);
        },
        IngressOutcome::Failed => {
            report.stack_errors = report.stack_errors.wrapping_add(1);
        },
    }
}

/// Drain every adapter of a bounded number of frames and hand each to the
/// stack.
pub fn poll_stack<M: Machine, F: Fn(u16, &[u8], u64) -> IngressOutcome>(
    network: &mut Network,
    machine: &mut M,
    now: u64,
    budget_per_adapter: usize,
    ingest: F,
) -> (report: PollReport)
    requires
        forall|interface: u16, bytes: &[u8]| #[trigger] call_requires(
            ingest,
            (interface, bytes, now),
        ),
    ensures
        exists|answers: Answers|
            #![trigger poll_run(old(network)@, budget_per_adapter as nat, answers, old(machine).io())]
            {
                let end = poll_run(
                    old(network)@,
                    budget_per_adapter as nat,
                    answers,
                    old(machine).io(),
                );
                &&& report == end.report
                &&& final(network)@ == end.network
                &&& final(machine).io() == end.io
                &&& forall|i: int|
                    0 <= i < end.handed.len() ==> can_answer(
                        ingest,
                        #[trigger] end.handed[i],
                        now,
                        answers(i as nat),
                    )
            },
{
    let mut report: PollReport = PollReport {
        received: 0,
        delivered: 0,
        replies: 0,
        dropped: 0,
        driver_errors: 0,
        stack_errors: 0,
    };
    let ghost budget = budget_per_adapter as nat;
    let ghost net0 = network@;
    let ghost io0 = machine.io();
    let ghost mut given: Seq<IngressOutcome> = Seq::empty();
    let ghost mut handed: Seq<(u16, Seq<u8>)> = Seq::empty();
    if budget_per_adapter == 0 {
        proof {
            let answers: Answers = |n: nat| given[n as int];
            assert(poll_run(net0, budget, answers, io0).handed.len() == 0);
        }
        return report;
    }
    let mut frame: Vec<u8> = Vec::new();
    while frame.len() < MAX_FRAME_LEN
        invariant
            frame@.len() <= MAX_FRAME_LEN,
        decreases MAX_FRAME_LEN - frame@.len(),
    {
        frame.push(0);
    }
    let ghost count = network@.adapters.len();
    let mut index: usize = 0;
    while index < network.adapters.len()
        invariant
            index <= network@.adapters.len() == count,
            frame@.len() == MAX_FRAME_LEN,
            budget == budget_per_adapter > 0,
            handed.len() == given.len(),
            net0 == old(network)@,
            io0 == old(machine).io(),
            forall|interface: u16, bytes: &[u8]| #[trigger] call_requires(
                ingest,
                (interface, bytes, now),
            ),
            forall|i: int|
                0 <= i < handed.len() ==> can_answer(ingest, #[trigger] handed[i], now, given[i]),
            forall|answers: Answers|
                agrees(answers, given) ==> #[trigger] poll_run(net0, budget, answers, io0)
                    == adapters_run(
                    answers,
                    budget,
                    index as int,
                    Pass { network: network@, report, handed, io: machine.io() },
                ),
        decreases network@.adapters.len() - index,
    {
        network.begin_irq_service(index);
        let interface: u16 = match interface_id(index) {
            Some(interface) => interface,
            None => {
                report.driver_errors = report.driver_errors.wrapping_add(1);
                network.finish_irq_service(machine, index);
                index = index + 1;
                continue ;
            },
        };
        let mut left: usize = budget_per_adapter;
        let mut more: bool = true;
        while left > 0
            invariant_except_break
                more,
                forall|answers: Answers|
                    agrees(answers, given) ==> #[trigger] poll_run(net0, budget, answers, io0)
                        == ({
                        let (again, drained) = drain_run(
                            answers,
                            index as int,
                            interface,
                            left as nat,
                            Pass { network: network@, report, handed, io: machine.io() },
                        );
                        adapters_run(
                            answers,
                            budget,
                            index + 1,
                            after_run(index as int, again, drained),
                        )
                    }),
            invariant
                index < network@.adapters.len() == count,
                frame@.len() == MAX_FRAME_LEN,
                handed.len() == given.len(),
                forall|interface: u16, bytes: &[u8]| #[trigger] call_requires(
                    ingest,
                    (interface, bytes, now),
                ),
                forall|i: int|
                    0 <= i < handed.len() ==> can_answer(
                        ingest,
                        #[trigger] handed[i],
                        now,
                        given[i],
                    ),
            ensures
                forall|answers: Answers|
                    agrees(answers, given) ==> #[trigger] poll_run(net0, budget, answers, io0)
                        == adapters_run(
                        answers,
                        budget,
                        index + 1,
                        after_run(
                            index as int,
                            more,
                            Pass { network: network@, report, handed, io: machine.io() },
                        ),
                    ),
            decreases left,
        {
            let ghost before = network@;
            let ghost polled_from = Pass { network: before, report, handed, io: machine.io() };
            let result: Result<usize, DriverError> = network.adapters[index].poll_receive(
                machine,
                &mut frame,
            );
            proof {
                assert(network@.adapters =~= before.adapters.update(
                    index as int,
                    network@.adapters[index as int],
                ));
            }
            let length: usize = match result {
                Ok(length) => length,
                Err(DriverError::NoPacket) => {
                    more = false;
                    break ;
                },
                Err(_) => {
                    report.driver_errors = report.driver_errors.wrapping_add(1);
                    more = false;
                    break ;
                },
            };
            report.received = report.received.wrapping_add(1);
            let bytes: &[u8] = vstd::slice::slice_subrange(frame.as_slice(), 0, length);
            let ghost seen = bytes@;
            proof {
                let expected = before.adapters[index as int].receive_run(
                    MAX_FRAME_LEN as nat,
                    polled_from.io,
                ).0->Ok_0;
                assert(seen =~= expected);
            }
            let outcome: IngressOutcome = ingest(interface, bytes, now);
            let ghost earlier = given;
            proof {
                assert(bytes@ == (interface, seen).1);
                assert(can_answer(ingest, (interface, seen), now, outcome));
                given = given.push(outcome);
                handed = handed.push((interface, seen));
                assert forall|i: int| 0 <= i < handed.len() implies can_answer(
                    ingest,
                    #[trigger] handed[i],
                    now,
                    given[i],
                ) by {
                    if i < earlier.len() {
                        assert(given[i] == earlier[i]);
                    }
                }
            }
            act(network, machine, &mut report, index, interface, &outcome, Ghost(handed));
            left = left - 1;
            proof {
                let now_pass = Pass { network: network@, report, handed, io: machine.io() };
                assert forall|answers: Answers|
                    agrees(answers, given) implies #[trigger] poll_run(net0, budget, answers, io0)
                    == ({
                    let (again, drained) = drain_run(
                        answers,
                        index as int,
                        interface,
                        left as nat,
                        now_pass,
                    );
                    adapters_run(
                        answers,
                        budget,
                        index + 1,
                        after_run(index as int, again, drained),
                    )
                }) by {
                    assert(agrees(answers, earlier)) by {
                        assert forall|i: nat| i < earlier.len() implies #[trigger] answers(i)
                            == earlier[i as int] by {
                            assert(answers(i) == given[i as int]);
                        }
                    }
                    assert(answers(earlier.len()) == outcome) by {
                        assert(answers(earlier.len()) == given[earlier.len() as int]);
                    }
                    assert(poll_run(net0, budget, answers, io0) == poll_run(
                        net0,
                        budget,
                        answers,
                        io0,
                    ));
                }
            }
        }
        if more {
            network.mark_pending(index);
        }
        network.finish_irq_service(machine, index);
        index = index + 1;
    }
    proof {
        let answers: Answers = |n: nat| given[n as int];
        assert(agrees(answers, given));
        let end = poll_run(net0, budget, answers, io0);
        assert(end == (Pass { network: network@, report, handed, io: machine.io() }));
    }
    report
}

proof fn lemma_drain_is_bounded(
    answers: Answers,
    index: int,
    interface: u16,
    left: nat,
    pass: Pass,
)
    ensures
        drain_run(answers, index, interface, left, pass).1.handed.len() <= pass.handed.len()
            + left,
    decreases left,
{
    if left > 0 {
        let (result, adapter, io) = pass.network.adapters[index].receive_run(
            MAX_FRAME_LEN as nat,
            pass.io,
        );
        let polled = Pass { io, ..pass.with_adapter(index, adapter) };
        match result {
            Err(_) => {},
            Ok(frame) => {
                let outcome = answers(pass.handed.len());
                lemma_drain_is_bounded(
                    answers,
                    index,
                    interface,
                    (left - 1) as nat,
                    polled.hand(interface, frame).act(index, interface, outcome),
                );
            },
        }
    }
}

proof fn lemma_adapters_are_bounded(answers: Answers, budget: nat, index: int, pass: Pass)
    requires
        0 <= index <= pass.network.adapters.len(),
    ensures
        ({
            let end = adapters_run(answers, budget, index, pass);
            &&& end.handed.len() <= pass.handed.len() + budget * (pass.network.adapters.len()
                - index)
            &&& end.network.adapters.len() == pass.network.adapters.len()
        }),
    decreases pass.network.adapters.len() - index,
{
    let count = pass.network.adapters.len();
    if index < count {
        let begun = Pass { network: pass.network.begun(index), ..pass };
        let next = match interface_of(index) {
            None => after_run(index, false, begun.driver_error()),
            Some(interface) => {
                let (more, drained) = drain_run(answers, index, interface, budget, begun);
                after_run(index, more, drained)
            },
        };
        if let Some(interface) = interface_of(index) {
            lemma_drain_keeps_count(answers, index, interface, budget, begun);
            lemma_drain_is_bounded(answers, index, interface, budget, begun);
        }
        lemma_adapters_are_bounded(answers, budget, index + 1, next);
        assert(budget * (count - index) == budget * (count - index - 1) + budget)
            by (nonlinear_arith);
    } else {
        assert(budget * (count - index) == 0) by (nonlinear_arith)
            requires
                count == index,
        ;
    }
}

/// One pass hands the stack no more frames than its share of each adapter, and
/// loses no adapter.
pub proof fn lemma_poll_is_bounded(network: NetworkModel, budget: nat, answers: Answers, io: Io)
    ensures
        poll_run(network, budget, answers, io).handed.len() <= budget * network.adapters.len(),
        poll_run(network, budget, answers, io).network.adapters.len() == network.adapters.len(),
{
    let start = Pass { network, report: PollReport::none(), handed: Seq::empty(), io };
    if budget > 0 {
        lemma_adapters_are_bounded(answers, budget, 0, start);
    } else {
        assert(budget * network.adapters.len() == 0) by (nonlinear_arith)
            requires
                budget == 0,
        ;
    }
}

/// How many of the first answers are of a sort.
pub open spec fn tally(answers: Answers, sort: spec_fn(IngressOutcome) -> bool, count: nat) -> nat
    decreases count,
{
    if count == 0 {
        0
    } else {
        tally(answers, sort, (count - 1) as nat) + if sort(answers((count - 1) as nat)) {
            1nat
        } else {
            0nat
        }
    }
}

pub open spec fn is_delivery() -> spec_fn(IngressOutcome) -> bool {
    |outcome: IngressOutcome| outcome is Delivered
}

pub open spec fn is_reply() -> spec_fn(IngressOutcome) -> bool {
    |outcome: IngressOutcome| outcome is Reply
}

pub open spec fn is_drop() -> spec_fn(IngressOutcome) -> bool {
    |outcome: IngressOutcome| outcome is Ignored || outcome is PortUnreachable
}

pub open spec fn is_failure() -> spec_fn(IngressOutcome) -> bool {
    |outcome: IngressOutcome| outcome is Failed
}

/// Whether a report counts each frame that was handed to the stack once, by its
/// answer; a reply that did not get out is an error of a driver.
pub open spec fn is_accounted(answers: Answers, report: PollReport, handed: nat) -> bool {
    &&& report.received == handed
    &&& report.delivered == tally(answers, is_delivery(), handed)
    &&& report.dropped == tally(answers, is_drop(), handed)
    &&& report.stack_errors == tally(answers, is_failure(), handed)
    &&& report.replies <= tally(answers, is_reply(), handed) <= report.replies
        + report.driver_errors
}

proof fn lemma_tallies_add_up(answers: Answers, count: nat)
    ensures
        tally(answers, is_delivery(), count) + tally(answers, is_reply(), count) + tally(
            answers,
            is_drop(),
            count,
        ) + tally(answers, is_failure(), count) == count,
    decreases count,
{
    if count > 0 {
        lemma_tallies_add_up(answers, (count - 1) as nat);
    }
}

proof fn lemma_drain_is_accounted(
    answers: Answers,
    index: int,
    interface: u16,
    left: nat,
    pass: Pass,
)
    requires
        is_accounted(answers, pass.report, pass.handed.len()),
        pass.report.driver_errors + left < usize::MAX,
        pass.handed.len() + left < usize::MAX,
    ensures
        ({
            let end = drain_run(answers, index, interface, left, pass).1;
            &&& is_accounted(answers, end.report, end.handed.len())
            &&& end.report.driver_errors <= pass.report.driver_errors + left
        }),
    decreases left,
{
    if left > 0 {
        let (result, adapter, io) = pass.network.adapters[index].receive_run(
            MAX_FRAME_LEN as nat,
            pass.io,
        );
        let polled = Pass { io, ..pass.with_adapter(index, adapter) };
        match result {
            Err(_) => {},
            Ok(frame) => {
                let outcome = answers(pass.handed.len());
                let next = polled.hand(interface, frame).act(index, interface, outcome);
                lemma_tallies_add_up(answers, pass.handed.len());
                assert(next.handed.len() == pass.handed.len() + 1);
                assert(is_accounted(answers, next.report, next.handed.len()));
                lemma_drain_is_accounted(answers, index, interface, (left - 1) as nat, next);
            },
        }
    }
}

proof fn lemma_adapters_are_accounted(answers: Answers, budget: nat, index: int, pass: Pass)
    requires
        0 <= index <= pass.network.adapters.len(),
        budget > 0,
        is_accounted(answers, pass.report, pass.handed.len()),
        pass.report.driver_errors + budget * (pass.network.adapters.len() - index) < usize::MAX,
        pass.handed.len() + budget * (pass.network.adapters.len() - index) < usize::MAX,
    ensures
        ({
            let end = adapters_run(answers, budget, index, pass);
            is_accounted(answers, end.report, end.handed.len())
        }),
    decreases pass.network.adapters.len() - index,
{
    let count = pass.network.adapters.len();
    if index < count {
        let begun = Pass { network: pass.network.begun(index), ..pass };
        let next = match interface_of(index) {
            None => after_run(index, false, begun.driver_error()),
            Some(interface) => {
                let (more, drained) = drain_run(answers, index, interface, budget, begun);
                after_run(index, more, drained)
            },
        };
        assert(budget * (count - index) == budget * (count - index - 1) + budget && budget * (count
            - index - 1) >= 0) by (nonlinear_arith)
            requires
                index < count,
        ;
        if let Some(interface) = interface_of(index) {
            lemma_drain_keeps_count(answers, index, interface, budget, begun);
            lemma_drain_is_bounded(answers, index, interface, budget, begun);
            lemma_drain_is_accounted(answers, index, interface, budget, begun);
        }
        lemma_adapters_are_accounted(answers, budget, index + 1, next);
    }
}

/// A report accounts for every frame: what was received was delivered, answered,
/// dropped, or refused by the stack, or its reply did not get out, which is an
/// error of a driver.  This is so as long as the counters cannot run over.
pub proof fn lemma_poll_is_accounted(network: NetworkModel, budget: nat, answers: Answers, io: Io)
    requires
        budget * network.adapters.len() < usize::MAX,
    ensures
        ({
            let pass = poll_run(network, budget, answers, io);
            let report = pass.report;
            let unsent = tally(answers, is_reply(), pass.handed.len()) - report.replies;
            &&& is_accounted(answers, report, pass.handed.len())
            &&& report.received == report.delivered + report.replies + report.dropped
                + report.stack_errors + unsent
            &&& 0 <= unsent <= report.driver_errors
        }),
{
    let start = Pass { network, report: PollReport::none(), handed: Seq::empty(), io };
    if budget > 0 {
        lemma_adapters_are_accounted(answers, budget, 0, start);
    }
    lemma_tallies_add_up(answers, poll_run(network, budget, answers, io).handed.len());
}

/// Draining an adapter hands over what was there before, then, where the adapter has
/// a frame, that frame with the number of the adapter's interface, which is one more
/// than its own.  No other adapter is touched.
pub proof fn lemma_received_is_handed(
    answers: Answers,
    index: int,
    interface: u16,
    left: nat,
    pass: Pass,
)
    requires
        0 <= index < pass.network.adapters.len(),
        interface == index + 1,
    ensures
        ({
            let end = drain_run(answers, index, interface, left, pass).1;
            let before = pass.handed.len();
            let first = pass.network.adapters[index].receive_run(1514, pass.io).0;
            &&& end.handed.len() >= before
            &&& end.handed.take(before as int) == pass.handed
            &&& forall|k: int| before <= k < end.handed.len() ==> (#[trigger] end.handed[k]).0
                == index + 1
            &&& left > 0 && first is Ok ==> end.handed.len() > before && end.handed[before as int].1
                == first->Ok_0
            &&& left == 0 || first is Err ==> end.handed.len() == before
            &&& end.network.adapters.len() == pass.network.adapters.len()
            &&& forall|j: int|
                0 <= j < pass.network.adapters.len() && j != index
                    ==> #[trigger] end.network.adapters[j] == pass.network.adapters[j]
        }),
    decreases left,
{
    assert(pass.handed.take(pass.handed.len() as int) =~= pass.handed);
    if left > 0 {
        let (result, adapter, io) = pass.network.adapters[index].receive_run(
            MAX_FRAME_LEN as nat,
            pass.io,
        );
        let polled = Pass { io, ..pass.with_adapter(index, adapter) };
        match result {
            Err(_) => {},
            Ok(frame) => {
                let outcome = answers(pass.handed.len());
                let next = polled.hand(interface, frame).act(index, interface, outcome);
                lemma_received_is_handed(answers, index, interface, (left - 1) as nat, next);
                let end = drain_run(answers, index, interface, left, pass).1;
                let before = pass.handed.len() as int;
                assert(next.handed == pass.handed.push((interface, frame)));
                assert(end.handed.take(before + 1)[before] == next.handed[before]);
                assert(end.handed.take(before) =~= end.handed.take(before + 1).take(before));
                assert(next.handed.take(before) =~= pass.handed);
                assert forall|k: int| before <= k < end.handed.len() implies (
                #[trigger] end.handed[k]).0 == index + 1 by {
                    if k == before {
                        assert(end.handed.take(before + 1)[k] == end.handed[k]);
                    }
                }
            },
        }
    }
}

/// A reply goes out through the adapter that received what it answers, and through no
/// other; one for another interface does not go out at all.
pub proof fn lemma_reply_goes_back(
    pass: Pass,
    index: int,
    interface: u16,
    reply: OutboundFrame,
)
    requires
        0 <= index < pass.network.adapters.len(),
    ensures
        ({
            let after = pass.act(index, interface, IngressOutcome::Reply(reply));
            let (result, adapter, io) = pass.network.adapters[index].transmit_run(
                reply.bytes@,
                pass.io,
            );
            let ours = reply.interface == interface;
            &&& ours ==> after.io == io && after.network.adapters[index] == adapter
            &&& !ours ==> after.io == pass.io && after.network == pass.network
            &&& ours && result is Ok ==> after.report.replies == pass.report.replies.wrapping_add(
                1,
            )
            &&& !ours || result is Err ==> after.report.driver_errors
                == pass.report.driver_errors.wrapping_add(1) && after.report.replies
                == pass.report.replies
            &&& forall|j: int|
                0 <= j < pass.network.adapters.len() && j != index
                    ==> #[trigger] after.network.adapters[j] == pass.network.adapters[j]
        }),
{
}

} // verus!
