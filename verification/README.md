# eve_fit_os

A ship fitting engine for EVE Online: it computes the attributes of a fitted
ship from the static dogma data and checks a fit for problems.

## Layout

- `src/` is the verified library. It holds every rule of the engine that
  works on identifiers, states and counts, with contracts proved by Verus:
  - `calculate::item`: effect categories, operators, object handles, slots;
  - `calculate::pass_2`: which dogma modifiers of an item become effects,
    how an item's supported state follows from them, and on which objects of
    the ship each effect is registered;
  - `calculate::pass_4`: on which attributes a warfare buff is registered;
  - `calculate::pass_5`: the discrete decisions of attribute evaluation;
  - `validate`: the validation rules over hardpoints, fitting restrictions,
    rig sizes, booster slots, charges, group activation limits, fighters,
    module states and industrial cores;
  - `protobuf`: the enumerated codes of the buff data.
- `app/` is the engine around it: attribute values are fractional, so the
  evaluation of attributes, stacking penalties, capacitor and reactive
  hardener simulation, resource checks and the loading of the data files
  live there, and call the library for every decision it states.
- `tests/` exercise the library on concrete fits.
