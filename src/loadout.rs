//! Sampling items from category tables and combining a full loadout.
use vstd::prelude::*;

use crate::profile::{name_separator, ProfileView, StatProfile};

verus! {

/// The largest magnitude a stat of a table row may have. Four such stats,
/// added to the empty profile, always fit in `i64`.
pub const STAT_LIMIT: i64 = 0x1000_0000_0000_0000;

/// Why a category table cannot be sampled.
#[derive(Debug, Clone, Copy, PartialEq, Eq, Structural)]
pub enum DataError {
    /// The table has no rows.
    EmptyTable,
    /// A row has a stat whose magnitude exceeds `STAT_LIMIT`.
    StatOutOfRange,
}

/// The read-only rows of one loadout slot.
pub struct CategoryTable {
    pub rows: Vec<StatProfile>,
}

impl View for CategoryTable {
    type V = Seq<ProfileView>;

    open spec fn view(&self) -> Seq<ProfileView> {
        self.rows@.map_values(|p: StatProfile| p@)
    }
}

/// Whether `x` lies within `STAT_LIMIT` of zero.
pub open spec fn stat_in_range(x: int) -> bool {
    -STAT_LIMIT <= x <= STAT_LIMIT
}

/// Whether every stat of `p` lies within `STAT_LIMIT` of zero.
pub open spec fn row_in_range(p: ProfileView) -> bool {
    &&& stat_in_range(p.speed)
    &&& stat_in_range(p.acceleration)
    &&& stat_in_range(p.weight)
    &&& stat_in_range(p.handling)
    &&& stat_in_range(p.traction)
}

/// Why the rows `rows` cannot be sampled, if they cannot.
pub open spec fn table_error(rows: Seq<ProfileView>) -> Option<DataError> {
    if rows.len() == 0 {
        Some(DataError::EmptyTable)
    } else if !(forall|i: int| 0 <= i < rows.len() ==> row_in_range(#[trigger] rows[i])) {
        Some(DataError::StatOutOfRange)
    } else {
        None
    }
}

/// The row that the random number `draw` selects: the one at `draw` modulo
/// the number of rows.
pub open spec fn pick(rows: Seq<ProfileView>, draw: u64) -> ProfileView {
    rows[(draw as int) % (rows.len() as int)]
}

impl CategoryTable {
    /// A table holding `rows`.
    pub fn new(rows: Vec<StatProfile>) -> (r: CategoryTable)
        ensures
            r.rows@ == rows@,
    {
        CategoryTable { rows }
    }

    /// The number of rows.
    pub fn len(&self) -> (r: usize)
        ensures
            r == self@.len(),
    {
        self.rows.len()
    }
}

/// Whether every row of `table` lies within `STAT_LIMIT`.
fn rows_in_range(table: &CategoryTable) -> (r: bool)
    ensures
        r == (forall|i: int| 0 <= i < table@.len() ==> row_in_range(#[trigger] table@[i])),
{
    let mut i: usize = 0;
    while i < table.rows.len()
        invariant
            0 <= i <= table@.len(),
            table@.len() == table.rows@.len(),
            forall|k: int| 0 <= k < i ==> row_in_range(#[trigger] table@[k]),
        decreases table.rows.len() - i,
    {
        let p = &table.rows[i];
        assert(table@[i as int] == p@);
        if !(-STAT_LIMIT <= p.speed && p.speed <= STAT_LIMIT && -STAT_LIMIT <= p.acceleration
            && p.acceleration <= STAT_LIMIT && -STAT_LIMIT <= p.weight && p.weight <= STAT_LIMIT
            && -STAT_LIMIT <= p.handling && p.handling <= STAT_LIMIT && -STAT_LIMIT <= p.traction
            && p.traction <= STAT_LIMIT) {
            return false;
        }
        i = i + 1;
    }
    true
}

/// One item of `table`, the one that the random number `draw` selects (a
/// uniformly random `draw` gives each row nearly the same chance). Fails when
/// the table is empty or holds a row out of range.
pub fn sample(table: &CategoryTable, draw: u64) -> (r: Result<StatProfile, DataError>)
    ensures
        match r {
            Ok(p) => table_error(table@) is None && p@ == pick(table@, draw),
            Err(e) => table_error(table@) == Some(e),
        },
        r is Ok ==> exists|i: int| 0 <= i < table@.len() && r->Ok_0@ == #[trigger] table@[i],
{
    let n = table.rows.len();
    if n == 0 {
        return Err(DataError::EmptyTable);
    }
    if !rows_in_range(table) {
        return Err(DataError::StatOutOfRange);
    }
    let i = (draw % (n as u64)) as usize;
    let p = table.rows[i].duplicate();
    assert(table@[i as int] == table.rows@[i as int]@);
    Ok(p)
}

/// The four category tables of a loadout, one per slot.
pub struct LoadoutTables {
    pub driver: CategoryTable,
    pub vehicle: CategoryTable,
    pub tire: CategoryTable,
    pub glider: CategoryTable,
}

impl LoadoutTables {
    /// The four tables, in slot order.
    pub fn new(
        driver: CategoryTable,
        vehicle: CategoryTable,
        tire: CategoryTable,
        glider: CategoryTable,
    ) -> (r: LoadoutTables)
        ensures
            r.driver@ == driver@,
            r.vehicle@ == vehicle@,
            r.tire@ == tire@,
            r.glider@ == glider@,
    {
        LoadoutTables { driver, vehicle, tire, glider }
    }

    /// Why a loadout cannot be drawn from these tables, if it cannot: the
    /// error of the first failing table, in the order driver, vehicle, tire,
    /// glider.
    pub open spec fn loadout_error(&self) -> Option<DataError> {
        if table_error(self.driver@) is Some {
            table_error(self.driver@)
        } else if table_error(self.vehicle@) is Some {
            table_error(self.vehicle@)
        } else if table_error(self.tire@) is Some {
            table_error(self.tire@)
        } else {
            table_error(self.glider@)
        }
    }
}

/// The aggregate of four items, folded into the empty profile in order.
pub open spec fn loadout_of(
    driver: ProfileView,
    vehicle: ProfileView,
    tire: ProfileView,
    glider: ProfileView,
) -> ProfileView {
    ProfileView::empty().combined(driver).combined(vehicle).combined(tire).combined(glider)
}

/// A loadout: one item sampled from each table with its own random number,
/// folded into the empty profile in the order driver, vehicle, tire, glider.
/// Fails, with the first table's error, when any table cannot be sampled.
pub fn combine_loadout(
    tables: &LoadoutTables,
    driver_draw: u64,
    vehicle_draw: u64,
    tire_draw: u64,
    glider_draw: u64,
) -> (r: Result<StatProfile, DataError>)
    ensures
        match r {
            Ok(p) => tables.loadout_error() is None && p@ == loadout_of(
                pick(tables.driver@, driver_draw),
                pick(tables.vehicle@, vehicle_draw),
                pick(tables.tire@, tire_draw),
                pick(tables.glider@, glider_draw),
            ),
            Err(e) => tables.loadout_error() == Some(e),
        },
{
    let driver = match sample(&tables.driver, driver_draw) {
        Ok(p) => p,
        Err(e) => return Err(e),
    };
    let vehicle = match sample(&tables.vehicle, vehicle_draw) {
        Ok(p) => p,
        Err(e) => return Err(e),
    };
    let tire = match sample(&tables.tire, tire_draw) {
        Ok(p) => p,
        Err(e) => return Err(e),
    };
    let glider = match sample(&tables.glider, glider_draw) {
        Ok(p) => p,
        Err(e) => return Err(e),
    };
    proof {
        lemma_pick_in_range(tables.driver@, driver_draw);
        lemma_pick_in_range(tables.vehicle@, vehicle_draw);
        lemma_pick_in_range(tables.tire@, tire_draw);
        lemma_pick_in_range(tables.glider@, glider_draw);
    }
    let acc = StatProfile::empty();
    let acc = acc.combine(&driver);
    let acc = acc.combine(&vehicle);
    let acc = acc.combine(&tire);
    let acc = acc.combine(&glider);
    Ok(acc)
}

proof fn lemma_pick_in_range(rows: Seq<ProfileView>, draw: u64)
    requires
        table_error(rows) is None,
    ensures
        row_in_range(pick(rows, draw)),
{
    let i = (draw as int) % (rows.len() as int);
    assert(0 <= i < rows.len());
    assert(row_in_range(rows[i]));
}

/// Each stat of a loadout is the exact sum of that stat over its four items.
pub proof fn lemma_loadout_stats_are_sums(
    driver: ProfileView,
    vehicle: ProfileView,
    tire: ProfileView,
    glider: ProfileView,
)
    ensures
        loadout_of(driver, vehicle, tire, glider).speed == driver.speed + vehicle.speed
            + tire.speed + glider.speed,
        loadout_of(driver, vehicle, tire, glider).acceleration == driver.acceleration
            + vehicle.acceleration + tire.acceleration + glider.acceleration,
        loadout_of(driver, vehicle, tire, glider).weight == driver.weight + vehicle.weight
            + tire.weight + glider.weight,
        loadout_of(driver, vehicle, tire, glider).handling == driver.handling
            + vehicle.handling + tire.handling + glider.handling,
        loadout_of(driver, vehicle, tire, glider).traction == driver.traction
            + vehicle.traction + tire.traction + glider.traction,
{
}

/// The name of a loadout is the four item names joined by `", "` in the
/// order driver, vehicle, tire, glider, provided the driver has a name (an
/// unnamed first item leaves no separator before the next name).
pub proof fn lemma_loadout_name_joins(
    driver: ProfileView,
    vehicle: ProfileView,
    tire: ProfileView,
    glider: ProfileView,
)
    requires
        driver.name.len() > 0,
    ensures
        loadout_of(driver, vehicle, tire, glider).name == driver.name + name_separator()
            + vehicle.name + name_separator() + tire.name + name_separator() + glider.name,
{
    let sep = name_separator();
    let one = ProfileView::empty().combined(driver);
    assert(one.name == driver.name);
    let two = one.combined(vehicle);
    assert(two.name == driver.name + sep + vehicle.name);
    let three = two.combined(tire);
    assert(three.name.len() > 0);
    assert(three.name == driver.name + sep + vehicle.name + sep + tire.name);
    let four = three.combined(glider);
    assert(four.name == driver.name + sep + vehicle.name + sep + tire.name + sep + glider.name);
}

} // verus!
