//! What holds of every scan, whatever the configuration space holds.

use vstd::prelude::*;
use crate::pci::config::device_at;
use crate::pci::config::header_type;
use crate::pci::config::secondary_bus;
use crate::pci::config::single_function;
use crate::pci::config::vendor_id;
use crate::pci::config::Space;
use crate::pci::config::INVALID_VENDOR_ID;
use crate::pci::device::Device;
use crate::pci::trail::bus_trail;
use crate::pci::trail::device_trail;
use crate::pci::trail::function_trail;
use crate::pci::trail::functions_trail;
use crate::pci::trail::host_trail;
use crate::pci::trail::is_bridge;
use crate::pci::trail::left;
use crate::pci::trail::lemma_bus_trail_none;
use crate::pci::trail::lemma_functions_trail_none;
use crate::pci::trail::lemma_host_trail_none;
use crate::pci::trail::root_trail;
use crate::pci::trail::DEVICES_PER_BUS;
use crate::pci::trail::MAX_FUNCTIONS;

verus! {

/// The entry names a function where a vendor answers, and holds the header
/// type and class code that this function reports.
pub open spec fn genuine(space: Space, entry: Device) -> bool {
    &&& vendor_id(space, entry.bus, entry.device, entry.function) != INVALID_VENDOR_ID
    &&& entry == device_at(space, entry.bus, entry.device, entry.function)
}

/// Every entry of the trail is genuine.
pub open spec fn all_genuine(space: Space, trail: Seq<Device>) -> bool {
    forall|i: int| 0 <= i < trail.len() ==> genuine(space, #[trigger] trail[i])
}

/// Scanning a function that is present meets only genuine functions.
pub proof fn lemma_function_trail_genuine(
    space: Space,
    limit: nat,
    bus: u8,
    device: u8,
    function: u8,
)
    requires
        vendor_id(space, bus, device, function) != INVALID_VENDOR_ID,
    ensures
        all_genuine(space, function_trail(space, limit, bus, device, function)),
    decreases limit, 0nat, 0nat,
{
    if limit > 0 {
        let found = device_at(space, bus, device, function);
        if is_bridge(found.class_code) {
            lemma_bus_trail_genuine(
                space,
                (limit - 1) as nat,
                secondary_bus(space, bus, device, function),
                0,
            );
        }
    }
}

/// Scanning the rest of a device meets only genuine functions.
pub proof fn lemma_functions_trail_genuine(
    space: Space,
    limit: nat,
    bus: u8,
    device: u8,
    function: nat,
)
    ensures
        all_genuine(space, functions_trail(space, limit, bus, device, function)),
    decreases limit, 1nat, MAX_FUNCTIONS - function,
{
    if function < MAX_FUNCTIONS {
        let here = if vendor_id(space, bus, device, function as u8) != INVALID_VENDOR_ID {
            function_trail(space, limit, bus, device, function as u8)
        } else {
            Seq::empty()
        };
        if vendor_id(space, bus, device, function as u8) != INVALID_VENDOR_ID {
            lemma_function_trail_genuine(space, limit, bus, device, function as u8);
        }
        lemma_functions_trail_genuine(space, left(limit, here.len()), bus, device, function + 1);
    }
}

/// Scanning a device whose function 0 is present meets only genuine functions.
pub proof fn lemma_device_trail_genuine(
    space: Space,
    limit: nat,
    bus: u8,
    device: u8,
)
    requires
        vendor_id(space, bus, device, 0) != INVALID_VENDOR_ID,
    ensures
        all_genuine(space, device_trail(space, limit, bus, device)),
    decreases limit, 2nat, 0nat,
{
    let first = function_trail(space, limit, bus, device, 0);
    lemma_function_trail_genuine(space, limit, bus, device, 0);
    lemma_functions_trail_genuine(space, left(limit, first.len()), bus, device, 1);
}

/// Scanning the rest of a bus meets only genuine functions.
pub proof fn lemma_bus_trail_genuine(
    space: Space,
    limit: nat,
    bus: u8,
    device: nat,
)
    ensures
        all_genuine(space, bus_trail(space, limit, bus, device)),
    decreases limit, 3nat, DEVICES_PER_BUS - device,
{
    if device < DEVICES_PER_BUS {
        let here = if vendor_id(space, bus, device as u8, 0) != INVALID_VENDOR_ID {
            device_trail(space, limit, bus, device as u8)
        } else {
            Seq::empty()
        };
        if vendor_id(space, bus, device as u8, 0) != INVALID_VENDOR_ID {
            lemma_device_trail_genuine(space, limit, bus, device as u8);
        }
        lemma_bus_trail_genuine(space, left(limit, here.len()), bus, device + 1);
    }
}

/// Scanning the rest of a multi-function host bridge meets only genuine
/// functions.
pub proof fn lemma_host_trail_genuine(
    space: Space,
    limit: nat,
    function: nat,
)
    ensures
        all_genuine(space, host_trail(space, limit, function)),
    decreases MAX_FUNCTIONS - function,
{
    if function < MAX_FUNCTIONS {
        let here = if vendor_id(space, 0, 0, function as u8) != INVALID_VENDOR_ID {
            bus_trail(space, limit, function as u8, 0)
        } else {
            Seq::empty()
        };
        lemma_bus_trail_genuine(space, limit, function as u8, 0);
        lemma_host_trail_genuine(space, left(limit, here.len()), function + 1);
    }
}

/// A scan never visits a function whose vendor id reads as absent: every
/// function it meets, up to any limit, answers with a vendor, and is recorded
/// with the header type and class code it reports.
pub proof fn lemma_scan_meets_only_present_functions(
    space: Space,
    limit: nat,
)
    ensures
        all_genuine(space, root_trail(space, limit)),
{
    lemma_bus_trail_genuine(space, limit, 0, 0);
    lemma_host_trail_genuine(space, limit, 0);
}

/// A trail never has more entries than its limit allows.
pub proof fn lemma_function_trail_within_limit(
    space: Space,
    limit: nat,
    bus: u8,
    device: u8,
    function: u8,
)
    ensures
        function_trail(space, limit, bus, device, function).len() <= limit,
    decreases limit, 0nat, 0nat,
{
    if limit > 0 {
        lemma_bus_trail_within_limit(
            space,
            (limit - 1) as nat,
            secondary_bus(space, bus, device, function),
            0,
        );
    }
}

/// A trail never has more entries than its limit allows.
pub proof fn lemma_functions_trail_within_limit(
    space: Space,
    limit: nat,
    bus: u8,
    device: u8,
    function: nat,
)
    ensures
        functions_trail(space, limit, bus, device, function).len() <= limit,
    decreases limit, 1nat, MAX_FUNCTIONS - function,
{
    if function < MAX_FUNCTIONS {
        let here = if vendor_id(space, bus, device, function as u8) != INVALID_VENDOR_ID {
            function_trail(space, limit, bus, device, function as u8)
        } else {
            Seq::empty()
        };
        lemma_function_trail_within_limit(space, limit, bus, device, function as u8);
        lemma_functions_trail_within_limit(
            space,
            left(limit, here.len()),
            bus,
            device,
            function + 1,
        );
    }
}

/// A trail never has more entries than its limit allows.
pub proof fn lemma_device_trail_within_limit(
    space: Space,
    limit: nat,
    bus: u8,
    device: u8,
)
    ensures
        device_trail(space, limit, bus, device).len() <= limit,
    decreases limit, 2nat, 0nat,
{
    let first = function_trail(space, limit, bus, device, 0);
    lemma_function_trail_within_limit(space, limit, bus, device, 0);
    lemma_functions_trail_within_limit(space, left(limit, first.len()), bus, device, 1);
}

/// A trail never has more entries than its limit allows.
pub proof fn lemma_bus_trail_within_limit(
    space: Space,
    limit: nat,
    bus: u8,
    device: nat,
)
    ensures
        bus_trail(space, limit, bus, device).len() <= limit,
    decreases limit, 3nat, DEVICES_PER_BUS - device,
{
    if device < DEVICES_PER_BUS {
        let here = if vendor_id(space, bus, device as u8, 0) != INVALID_VENDOR_ID {
            device_trail(space, limit, bus, device as u8)
        } else {
            Seq::empty()
        };
        lemma_device_trail_within_limit(space, limit, bus, device as u8);
        lemma_bus_trail_within_limit(space, left(limit, here.len()), bus, device + 1);
    }
}

/// A trail never has more entries than its limit allows.
pub proof fn lemma_host_trail_within_limit(
    space: Space,
    limit: nat,
    function: nat,
)
    ensures
        host_trail(space, limit, function).len() <= limit,
    decreases MAX_FUNCTIONS - function,
{
    if function < MAX_FUNCTIONS {
        let here = if vendor_id(space, 0, 0, function as u8) != INVALID_VENDOR_ID {
            bus_trail(space, limit, function as u8, 0)
        } else {
            Seq::empty()
        };
        lemma_bus_trail_within_limit(space, limit, function as u8, 0);
        lemma_host_trail_within_limit(space, left(limit, here.len()), function + 1);
    }
}

/// A whole scan never meets more functions than its limit allows.
pub proof fn lemma_root_trail_within_limit(space: Space, limit: nat)
    ensures
        root_trail(space, limit).len() <= limit,
{
    lemma_bus_trail_within_limit(space, limit, 0, 0);
    lemma_host_trail_within_limit(space, limit, 0);
}

/// The first `limit` entries of a trail, or all of it if it has fewer.
pub open spec fn cut(trail: Seq<Device>, limit: nat) -> Seq<Device> {
    if trail.len() <= limit {
        trail
    } else {
        trail.take(limit as int)
    }
}

/// Cutting a trail made of two parts cuts the first part and, with what is
/// left of the limit, the second.
proof fn lemma_cut_in_parts(first: Seq<Device>, second: Seq<Device>, limit: nat)
    ensures
        cut(first + second, limit) == cut(first, limit) + cut(
            second,
            left(limit, cut(first, limit).len()),
        ),
        first.len() > limit ==> cut(first + second, limit) == first.take(limit as int),
{
    if first.len() > limit {
        assert((first + second).take(limit as int) =~= first.take(limit as int));
        assert(cut(second, 0) =~= Seq::<Device>::empty());
        assert(first.take(limit as int) + Seq::<Device>::empty() =~= first.take(limit as int));
    } else if first.len() + second.len() <= limit {
    } else {
        assert((first + second).take(limit as int) =~= first + second.take(limit - first.len()));
    }
}

/// The limit of a trail is a cut-off and nothing more: a trail with a
/// smaller limit is the start of the trail with a larger one.
pub proof fn lemma_function_trail_is_cut(
    space: Space,
    small: nat,
    large: nat,
    bus: u8,
    device: u8,
    function: u8,
)
    requires
        small <= large,
    ensures
        function_trail(space, small, bus, device, function) == cut(
            function_trail(space, large, bus, device, function),
            small,
        ),
    decreases large, 0nat, 0nat,
{
    if small > 0 {
        let found = device_at(space, bus, device, function);
        let secondary = secondary_bus(space, bus, device, function);
        if is_bridge(found.class_code) {
            lemma_bus_trail_is_cut(
                space,
                (small - 1) as nat,
                (large - 1) as nat,
                secondary,
                0,
            );
            let behind = bus_trail(space, (large - 1) as nat, secondary, 0);
            lemma_cut_in_parts(seq![found], behind, small);
            assert(cut(seq![found], small) == seq![found]);
        } else {
            assert(function_trail(space, large, bus, device, function) =~= seq![found]);
            assert(function_trail(space, small, bus, device, function) =~= seq![found]);
        }
    } else {
        let whole = function_trail(space, large, bus, device, function);
        assert(cut(whole, 0) =~= Seq::<Device>::empty());
    }
}

/// A trail with a smaller limit is the start of the trail with a larger one.
pub proof fn lemma_functions_trail_is_cut(
    space: Space,
    small: nat,
    large: nat,
    bus: u8,
    device: u8,
    function: nat,
)
    requires
        small <= large,
    ensures
        functions_trail(space, small, bus, device, function) == cut(
            functions_trail(space, large, bus, device, function),
            small,
        ),
    decreases large, 1nat, MAX_FUNCTIONS - function,
{
    if function < MAX_FUNCTIONS {
        let present = vendor_id(space, bus, device, function as u8) != INVALID_VENDOR_ID;
        let here_large = if present {
            function_trail(space, large, bus, device, function as u8)
        } else {
            Seq::empty()
        };
        let here_small = if present {
            function_trail(space, small, bus, device, function as u8)
        } else {
            Seq::empty()
        };
        lemma_function_trail_is_cut(space, small, large, bus, device, function as u8);
        lemma_function_trail_within_limit(space, large, bus, device, function as u8);
        assert(here_small == cut(here_large, small));
        let rest_large = functions_trail(
            space,
            left(large, here_large.len()),
            bus,
            device,
            function + 1,
        );
        lemma_cut_in_parts(here_large, rest_large, small);
        if here_large.len() > small {
            lemma_functions_trail_none(space, bus, device, function + 1);
            assert(here_small + Seq::<Device>::empty() =~= here_small);
        } else {
            lemma_functions_trail_is_cut(
                space,
                left(small, here_small.len()),
                left(large, here_large.len()),
                bus,
                device,
                function + 1,
            );
        }
    } else {
        assert(cut(Seq::<Device>::empty(), small) =~= Seq::<Device>::empty());
    }
}

/// A trail with a smaller limit is the start of the trail with a larger one.
pub proof fn lemma_device_trail_is_cut(
    space: Space,
    small: nat,
    large: nat,
    bus: u8,
    device: u8,
)
    requires
        small <= large,
    ensures
        device_trail(space, small, bus, device) == cut(
            device_trail(space, large, bus, device),
            small,
        ),
    decreases large, 2nat, 0nat,
{
    let first_large = function_trail(space, large, bus, device, 0);
    let first_small = function_trail(space, small, bus, device, 0);
    lemma_function_trail_is_cut(space, small, large, bus, device, 0);
    lemma_function_trail_within_limit(space, large, bus, device, 0);
    if !single_function(header_type(space, bus, device, 0)) {
        let rest_large = functions_trail(space, left(large, first_large.len()), bus, device, 1);
        lemma_cut_in_parts(first_large, rest_large, small);
        if first_large.len() > small {
            lemma_functions_trail_none(space, bus, device, 1);
            assert(first_small + Seq::<Device>::empty() =~= first_small);
        } else {
            lemma_functions_trail_is_cut(
                space,
                left(small, first_small.len()),
                left(large, first_large.len()),
                bus,
                device,
                1,
            );
        }
    }
}

/// A trail with a smaller limit is the start of the trail with a larger one.
pub proof fn lemma_bus_trail_is_cut(
    space: Space,
    small: nat,
    large: nat,
    bus: u8,
    device: nat,
)
    requires
        small <= large,
    ensures
        bus_trail(space, small, bus, device) == cut(bus_trail(space, large, bus, device), small),
    decreases large, 3nat, DEVICES_PER_BUS - device,
{
    if device < DEVICES_PER_BUS {
        let present = vendor_id(space, bus, device as u8, 0) != INVALID_VENDOR_ID;
        let here_large = if present {
            device_trail(space, large, bus, device as u8)
        } else {
            Seq::empty()
        };
        let here_small = if present {
            device_trail(space, small, bus, device as u8)
        } else {
            Seq::empty()
        };
        lemma_device_trail_is_cut(space, small, large, bus, device as u8);
        lemma_device_trail_within_limit(space, large, bus, device as u8);
        assert(here_small == cut(here_large, small));
        let rest_large = bus_trail(space, left(large, here_large.len()), bus, device + 1);
        lemma_cut_in_parts(here_large, rest_large, small);
        if here_large.len() > small {
            lemma_bus_trail_none(space, bus, device + 1);
            assert(here_small + Seq::<Device>::empty() =~= here_small);
        } else {
            lemma_bus_trail_is_cut(
                space,
                left(small, here_small.len()),
                left(large, here_large.len()),
                bus,
                device + 1,
            );
        }
    } else {
        assert(cut(Seq::<Device>::empty(), small) =~= Seq::<Device>::empty());
    }
}

/// A trail with a smaller limit is the start of the trail with a larger one.
pub proof fn lemma_host_trail_is_cut(
    space: Space,
    small: nat,
    large: nat,
    function: nat,
)
    requires
        small <= large,
    ensures
        host_trail(space, small, function) == cut(host_trail(space, large, function), small),
    decreases MAX_FUNCTIONS - function,
{
    if function < MAX_FUNCTIONS {
        let present = vendor_id(space, 0, 0, function as u8) != INVALID_VENDOR_ID;
        let here_large = if present {
            bus_trail(space, large, function as u8, 0)
        } else {
            Seq::empty()
        };
        let here_small = if present {
            bus_trail(space, small, function as u8, 0)
        } else {
            Seq::empty()
        };
        lemma_bus_trail_is_cut(space, small, large, function as u8, 0);
        lemma_bus_trail_within_limit(space, large, function as u8, 0);
        assert(here_small == cut(here_large, small));
        let rest_large = host_trail(space, left(large, here_large.len()), function + 1);
        lemma_cut_in_parts(here_large, rest_large, small);
        if here_large.len() > small {
            lemma_host_trail_none(space, function + 1);
            assert(here_small + Seq::<Device>::empty() =~= here_small);
        } else {
            lemma_host_trail_is_cut(
                space,
                left(small, here_small.len()),
                left(large, here_large.len()),
                function + 1,
            );
        }
    } else {
        assert(cut(Seq::<Device>::empty(), small) =~= Seq::<Device>::empty());
    }
}

/// The order in which a scan meets the functions does not depend on how
/// much room the list has: what a scan with less room meets is the start of
/// what a scan with more room meets.
pub proof fn lemma_scan_order_is_independent_of_room(
    space: Space,
    small: nat,
    large: nat,
)
    requires
        small <= large,
    ensures
        root_trail(space, small) == cut(root_trail(space, large), small),
{
    lemma_bus_trail_is_cut(space, small, large, 0, 0);
    lemma_host_trail_is_cut(space, small, large, 0);
}

/// The first `limit` functions met when scanning functions `from..to` of a
/// device, skipping those where no vendor answers.
pub open spec fn functions_span(
    space: Space,
    limit: nat,
    bus: u8,
    device: u8,
    from: nat,
    to: nat,
) -> Seq<Device>
    decreases to - from,
{
    if from >= to {
        Seq::empty()
    } else {
        let here = if vendor_id(space, bus, device, from as u8) != INVALID_VENDOR_ID {
            function_trail(space, limit, bus, device, from as u8)
        } else {
            Seq::empty()
        };
        here + functions_span(space, left(limit, here.len()), bus, device, from + 1, to)
    }
}

/// The functions of a device are met one after the other: what is met from
/// function `from` on is what is met up to function `to`, followed by what
/// is met from function `to` on.
pub proof fn lemma_functions_trail_splits(
    space: Space,
    limit: nat,
    bus: u8,
    device: u8,
    from: nat,
    to: nat,
)
    requires
        from <= to <= MAX_FUNCTIONS,
    ensures
        functions_span(space, limit, bus, device, from, to).len() <= limit,
        functions_trail(space, limit, bus, device, from) == functions_span(
            space,
            limit,
            bus,
            device,
            from,
            to,
        ) + functions_trail(
            space,
            left(limit, functions_span(space, limit, bus, device, from, to).len()),
            bus,
            device,
            to,
        ),
    decreases to - from,
{
    let span = functions_span(space, limit, bus, device, from, to);
    if from < to {
        let here = if vendor_id(space, bus, device, from as u8) != INVALID_VENDOR_ID {
            function_trail(space, limit, bus, device, from as u8)
        } else {
            Seq::empty()
        };
        lemma_function_trail_within_limit(space, limit, bus, device, from as u8);
        let rest_limit = left(limit, here.len());
        lemma_functions_trail_splits(space, rest_limit, bus, device, from + 1, to);
        let rest_span = functions_span(space, rest_limit, bus, device, from + 1, to);
        assert(left(rest_limit, rest_span.len()) == left(limit, span.len()));
        assert(functions_trail(space, limit, bus, device, from) =~= span + functions_trail(
            space,
            left(limit, span.len()),
            bus,
            device,
            to,
        ));
    } else {
        assert(span + functions_trail(space, limit, bus, device, to) =~= functions_trail(
            space,
            limit,
            bus,
            device,
            to,
        ));
    }
}

/// What a scan of a multi-function device meets before it comes to
/// function `function`: function 0 with all that lies behind it, then the
/// functions before `function` that are present, each with all that lies
/// behind it.
pub open spec fn met_before(space: Space, limit: nat, bus: u8, device: u8, function: nat) -> Seq<
    Device,
> {
    let head = function_trail(space, limit, bus, device, 0);
    head + functions_span(space, left(limit, head.len()), bus, device, 1, function)
}

/// A scan of a multi-function device takes the functions in rising order,
/// each once. It comes to function `function` after all that it met before;
/// if a vendor answers there, the record of the function is the next entry
/// of the trail (unless the trail is cut off before), followed by what lies
/// behind the function; if none answers, nothing is recorded for it. Then
/// the scan goes on with the functions after it.
pub proof fn lemma_device_scan_takes_each_function_in_turn(
    space: Space,
    limit: nat,
    bus: u8,
    device: u8,
    function: nat,
)
    requires
        !single_function(header_type(space, bus, device, 0)),
        1 <= function < MAX_FUNCTIONS,
    ensures
        ({
            let before = met_before(space, limit, bus, device, function);
            let room = left(limit, before.len());
            let here = if vendor_id(space, bus, device, function as u8) != INVALID_VENDOR_ID {
                function_trail(space, room, bus, device, function as u8)
            } else {
                Seq::empty()
            };
            let after = functions_trail(
                space,
                left(room, here.len()),
                bus,
                device,
                function + 1,
            );
            &&& device_trail(space, limit, bus, device) == before + here + after
            &&& met_before(space, limit, bus, device, function + 1) == before + here
            &&& vendor_id(space, bus, device, function as u8) != INVALID_VENDOR_ID && room > 0
                ==> here.len() > 0 && device_trail(space, limit, bus, device)[before.len() as int]
                == device_at(space, bus, device, function as u8)
        }),
{
    let head = function_trail(space, limit, bus, device, 0);
    let rest_limit = left(limit, head.len());
    lemma_function_trail_within_limit(space, limit, bus, device, 0);
    lemma_functions_trail_splits(space, rest_limit, bus, device, 1, function);
    lemma_functions_trail_splits(space, rest_limit, bus, device, 1, function + 1);
    lemma_functions_trail_splits(space, rest_limit, bus, device, function, function);
    let span = functions_span(space, rest_limit, bus, device, 1, function);
    let before = met_before(space, limit, bus, device, function);
    let room = left(limit, before.len());
    assert(room == left(rest_limit, span.len()));
    let here = if vendor_id(space, bus, device, function as u8) != INVALID_VENDOR_ID {
        function_trail(space, room, bus, device, function as u8)
    } else {
        Seq::empty()
    };
    let after = functions_trail(space, left(room, here.len()), bus, device, function + 1);
    assert(functions_trail(space, room, bus, device, function) == here + after);
    assert(device_trail(space, limit, bus, device) =~= before + here + after);
    lemma_span_grows_by_one(space, rest_limit, bus, device, 1, function);
    assert(met_before(space, limit, bus, device, function + 1) =~= before + here);
}

/// What is met up to and with function `to` is what is met before it,
/// followed by what is met at it.
proof fn lemma_span_grows_by_one(
    space: Space,
    limit: nat,
    bus: u8,
    device: u8,
    from: nat,
    to: nat,
)
    requires
        from <= to < MAX_FUNCTIONS,
    ensures
        functions_span(space, limit, bus, device, from, to + 1) == functions_span(
            space,
            limit,
            bus,
            device,
            from,
            to,
        ) + (if vendor_id(space, bus, device, to as u8) != INVALID_VENDOR_ID {
            function_trail(
                space,
                left(limit, functions_span(space, limit, bus, device, from, to).len()),
                bus,
                device,
                to as u8,
            )
        } else {
            Seq::empty()
        }),
    decreases to - from,
{
    let here = if vendor_id(space, bus, device, from as u8) != INVALID_VENDOR_ID {
        function_trail(space, limit, bus, device, from as u8)
    } else {
        Seq::empty()
    };
    if from < to {
        lemma_function_trail_within_limit(space, limit, bus, device, from as u8);
        lemma_span_grows_by_one(space, left(limit, here.len()), bus, device, from + 1, to);
        let rest_limit = left(limit, here.len());
        let rest_span = functions_span(space, rest_limit, bus, device, from + 1, to);
        lemma_functions_trail_splits(space, rest_limit, bus, device, from + 1, to);
        assert(left(rest_limit, rest_span.len()) == left(
            limit,
            functions_span(space, limit, bus, device, from, to).len(),
        ));
        let last = if vendor_id(space, bus, device, to as u8) != INVALID_VENDOR_ID {
            function_trail(space, left(rest_limit, rest_span.len()), bus, device, to as u8)
        } else {
            Seq::empty()
        };
        assert(functions_span(space, limit, bus, device, from, to + 1) =~= functions_span(
            space,
            limit,
            bus,
            device,
            from,
            to,
        ) + last);
    } else {
        let rest = functions_span(space, left(limit, here.len()), bus, device, from + 1, to + 1);
        assert(rest =~= Seq::<Device>::empty());
        assert(here + rest =~= here);
        assert(functions_span(space, limit, bus, device, from, to) =~= Seq::<Device>::empty());
        assert(functions_span(space, limit, bus, device, from, to + 1) =~= here);
        assert(Seq::<Device>::empty() + here =~= here);
    }
}

/// A scan of a device records nothing for a function where no vendor
/// answers.
pub proof fn lemma_device_scan_leaves_out_absent_functions(
    space: Space,
    limit: nat,
    bus: u8,
    device: u8,
    function: u8,
    at: int,
)
    requires
        vendor_id(space, bus, device, 0) != INVALID_VENDOR_ID,
        vendor_id(space, bus, device, function) == INVALID_VENDOR_ID,
        0 <= at < device_trail(space, limit, bus, device).len(),
    ensures
        ({
            let entry = device_trail(space, limit, bus, device)[at];
            !(entry.bus == bus && entry.device == device && entry.function == function)
        }),
{
    lemma_device_trail_genuine(space, limit, bus, device);
}

/// The entry records a function of the given device.
pub open spec fn at_device(entry: Device, bus: u8, device: u8) -> bool {
    entry.bus == bus && entry.device == device
}

/// Where a trail that is not cut off holds a function of a device behind
/// the function it starts with, it holds a whole scan of that device: for
/// the limit returned, the device's trail is not cut off and no longer than
/// the trail given.
proof fn lemma_device_behind_function(
    space: Space,
    limit: nat,
    b: u8,
    d: u8,
    f: u8,
    at: int,
    bus: u8,
    device: u8,
) -> (k: nat)
    requires
        function_trail(space, limit, b, d, f).len() < limit,
        0 <= at < function_trail(space, limit, b, d, f).len(),
        at_device(function_trail(space, limit, b, d, f)[at], bus, device),
        !(b == bus && d == device),
    ensures
        k <= limit,
        device_trail(space, k, bus, device).len() < k,
        device_trail(space, k, bus, device).len() <= function_trail(space, limit, b, d, f).len(),
    decreases limit, 0nat, 0nat,
{
    let found = device_at(space, b, d, f);
    let behind = bus_trail(space, (limit - 1) as nat, secondary_bus(space, b, d, f), 0);
    assert(is_bridge(found.class_code));
    assert(function_trail(space, limit, b, d, f) =~= seq![found] + behind);
    lemma_device_in_bus(
        space,
        (limit - 1) as nat,
        secondary_bus(space, b, d, f),
        0,
        at - 1,
        bus,
        device,
    )
}

/// As [`lemma_device_behind_function`], for the functions `from..8` of a
/// device other than the one looked for.
proof fn lemma_device_behind_functions(
    space: Space,
    limit: nat,
    b: u8,
    d: u8,
    from: nat,
    at: int,
    bus: u8,
    device: u8,
) -> (k: nat)
    requires
        functions_trail(space, limit, b, d, from).len() < limit,
        0 <= at < functions_trail(space, limit, b, d, from).len(),
        at_device(functions_trail(space, limit, b, d, from)[at], bus, device),
        !(b == bus && d == device),
    ensures
        k <= limit,
        device_trail(space, k, bus, device).len() < k,
        device_trail(space, k, bus, device).len() <= functions_trail(
            space,
            limit,
            b,
            d,
            from,
        ).len(),
    decreases limit, 1nat, MAX_FUNCTIONS - from,
{
    let here = if vendor_id(space, b, d, from as u8) != INVALID_VENDOR_ID {
        function_trail(space, limit, b, d, from as u8)
    } else {
        Seq::empty()
    };
    let rest = functions_trail(space, left(limit, here.len()), b, d, from + 1);
    assert(functions_trail(space, limit, b, d, from) == here + rest);
    if at < here.len() {
        lemma_device_behind_function(space, limit, b, d, from as u8, at, bus, device)
    } else {
        lemma_device_behind_functions(
            space,
            left(limit, here.len()),
            b,
            d,
            from + 1,
            at - here.len(),
            bus,
            device,
        )
    }
}

/// As [`lemma_device_behind_function`], for the scan of a device: the
/// device looked for itself, or one behind which it lies.
proof fn lemma_device_in_device(
    space: Space,
    limit: nat,
    b: u8,
    d: u8,
    at: int,
    bus: u8,
    device: u8,
) -> (k: nat)
    requires
        device_trail(space, limit, b, d).len() < limit,
        0 <= at < device_trail(space, limit, b, d).len(),
        at_device(device_trail(space, limit, b, d)[at], bus, device),
    ensures
        k <= limit,
        device_trail(space, k, bus, device).len() < k,
        device_trail(space, k, bus, device).len() <= device_trail(space, limit, b, d).len(),
    decreases limit, 2nat, 0nat,
{
    if b == bus && d == device {
        limit
    } else {
        let first = function_trail(space, limit, b, d, 0);
        if single_function(header_type(space, b, d, 0)) || at < first.len() {
            lemma_device_behind_function(space, limit, b, d, 0, at, bus, device)
        } else {
            lemma_device_behind_functions(
                space,
                left(limit, first.len()),
                b,
                d,
                1,
                at - first.len(),
                bus,
                device,
            )
        }
    }
}

/// As [`lemma_device_behind_function`], for the scan of the devices
/// `from..32` of a bus.
proof fn lemma_device_in_bus(
    space: Space,
    limit: nat,
    b: u8,
    from: nat,
    at: int,
    bus: u8,
    device: u8,
) -> (k: nat)
    requires
        bus_trail(space, limit, b, from).len() < limit,
        0 <= at < bus_trail(space, limit, b, from).len(),
        at_device(bus_trail(space, limit, b, from)[at], bus, device),
    ensures
        k <= limit,
        device_trail(space, k, bus, device).len() < k,
        device_trail(space, k, bus, device).len() <= bus_trail(space, limit, b, from).len(),
    decreases limit, 3nat, DEVICES_PER_BUS - from,
{
    let here = if vendor_id(space, b, from as u8, 0) != INVALID_VENDOR_ID {
        device_trail(space, limit, b, from as u8)
    } else {
        Seq::empty()
    };
    let rest = bus_trail(space, left(limit, here.len()), b, from + 1);
    assert(bus_trail(space, limit, b, from) == here + rest);
    if at < here.len() {
        lemma_device_in_device(space, limit, b, from as u8, at, bus, device)
    } else {
        lemma_device_in_bus(
            space,
            left(limit, here.len()),
            b,
            from + 1,
            at - here.len(),
            bus,
            device,
        )
    }
}

/// In a scan of a device that is not cut off, no function of the device
/// lies behind a function of the device: a bridge that led back to the
/// device would have the scan go round without end. So where the trail of
/// one of the device's functions holds a function of the device, it is at
/// its start.
proof fn lemma_own_function_not_behind(
    space: Space,
    limit: nat,
    bus: u8,
    device: u8,
    function: u8,
    room: nat,
    at: int,
)
    requires
        device_trail(space, limit, bus, device).len() < limit,
        room <= limit,
        function_trail(space, room, bus, device, function).len() < room,
        function_trail(space, room, bus, device, function).len() <= device_trail(
            space,
            limit,
            bus,
            device,
        ).len(),
        0 <= at < function_trail(space, room, bus, device, function).len(),
        at_device(function_trail(space, room, bus, device, function)[at], bus, device),
    ensures
        at == 0,
{
    if at > 0 {
        let whole = device_trail(space, limit, bus, device);
        let found = device_at(space, bus, device, function);
        let behind = bus_trail(
            space,
            (room - 1) as nat,
            secondary_bus(space, bus, device, function),
            0,
        );
        assert(is_bridge(found.class_code));
        assert(function_trail(space, room, bus, device, function) =~= seq![found] + behind);
        let k = lemma_device_in_bus(
            space,
            (room - 1) as nat,
            secondary_bus(space, bus, device, function),
            0,
            at - 1,
            bus,
            device,
        );
        lemma_device_trail_is_cut(space, k, limit, bus, device);
    }
}

/// Place in a device's trail of the record of function `function`: the
/// first place for function 0, and for another function the place after all
/// that is met before it.
pub open spec fn place_of_function(
    space: Space,
    limit: nat,
    bus: u8,
    device: u8,
    function: nat,
) -> nat {
    if function == 0 {
        0
    } else {
        met_before(space, limit, bus, device, function).len()
    }
}

/// As [`lemma_device_scan_records_each_function_once`], for an entry that
/// does not lie before function `function`.
proof fn lemma_once_from_function(
    space: Space,
    limit: nat,
    bus: u8,
    device: u8,
    function: nat,
    at: int,
)
    requires
        !single_function(header_type(space, bus, device, 0)),
        1 <= function <= MAX_FUNCTIONS,
        device_trail(space, limit, bus, device).len() < limit,
        met_before(space, limit, bus, device, function).len() <= at < device_trail(
            space,
            limit,
            bus,
            device,
        ).len(),
        at_device(device_trail(space, limit, bus, device)[at], bus, device),
    ensures
        at == place_of_function(
            space,
            limit,
            bus,
            device,
            device_trail(space, limit, bus, device)[at].function as nat,
        ),
    decreases MAX_FUNCTIONS - function,
{
    let whole = device_trail(space, limit, bus, device);
    let head = function_trail(space, limit, bus, device, 0);
    let before = met_before(space, limit, bus, device, function);
    if function == MAX_FUNCTIONS {
        lemma_function_trail_within_limit(space, limit, bus, device, 0);
        lemma_functions_trail_splits(
            space,
            left(limit, head.len()),
            bus,
            device,
            1,
            MAX_FUNCTIONS as nat,
        );
        assert(whole =~= before);
    } else {
        lemma_device_scan_takes_each_function_in_turn(space, limit, bus, device, function);
        let room = left(limit, before.len());
        let here = if vendor_id(space, bus, device, function as u8) != INVALID_VENDOR_ID {
            function_trail(space, room, bus, device, function as u8)
        } else {
            Seq::empty()
        };
        if at < before.len() + here.len() {
            let within = at - before.len();
            assert(whole[at] == here[within]);
            lemma_own_function_not_behind(
                space,
                limit,
                bus,
                device,
                function as u8,
                room,
                within,
            );
        } else {
            lemma_once_from_function(space, limit, bus, device, function + 1, at);
        }
    }
}

/// A scan of a device that comes to its end records each function of the
/// device once: wherever the trail, not cut off, holds a function of the
/// device, that is the place where the scan came to this function in its
/// turn, function 0 first and the others in rising order.
pub proof fn lemma_device_scan_records_each_function_once(
    space: Space,
    limit: nat,
    bus: u8,
    device: u8,
    at: int,
)
    requires
        device_trail(space, limit, bus, device).len() < limit,
        0 <= at < device_trail(space, limit, bus, device).len(),
        at_device(device_trail(space, limit, bus, device)[at], bus, device),
    ensures
        at == place_of_function(
            space,
            limit,
            bus,
            device,
            device_trail(space, limit, bus, device)[at].function as nat,
        ),
{
    let whole = device_trail(space, limit, bus, device);
    let head = function_trail(space, limit, bus, device, 0);
    if at < head.len() {
        assert(whole[at] == head[at]);
        lemma_own_function_not_behind(space, limit, bus, device, 0, limit, at);
    } else {
        assert(!single_function(header_type(space, bus, device, 0)));
        assert(met_before(space, limit, bus, device, 1) =~= head);
        lemma_once_from_function(space, limit, bus, device, 1, at);
    }
}

} // verus!
