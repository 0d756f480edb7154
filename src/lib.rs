//! Ship-chandlery order and warehouse core: the order status state machine,
//! the stock ledger, and the money arithmetic behind order totals and reports.
use vstd::prelude::*;

pub mod config;
pub mod ledger;
pub mod models;
pub mod money;
pub mod order_book;
pub mod reports;
pub mod response;
pub mod warehouse;

verus! {

/// A greeting that shows the core is reachable.
pub fn greet(name: String) -> (r: String)
    ensures
        r@ == "Merhaba "@ + name@ + "! SSMS Rust backend çalışıyor."@,
{
    let mut r = String::from_str("Merhaba ");
    r.append(name.as_str());
    r.append("! SSMS Rust backend çalışıyor.");
    r
}

/// The name and version of the core.
pub fn get_version() -> (r: String)
    ensures
        r@ == "SSMS Core v0.1.0"@,
{
    String::from_str("SSMS Core v0.1.0")
}

} // verus!
