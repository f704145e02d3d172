use vstd::prelude::*;
use vstd::string::StringExecFns;

verus! {

/// Takes a place on the front-of-house wait list.
pub fn add_to_waitlist() {
}

/// Seats a guest: the front of the house puts them on the wait list.
pub fn eat_at_restaurant() {
    add_to_waitlist();
}

/// Hands a finished order to the guest.
pub fn serve_order() {
}

/// Cooks one order in the back of the house.
pub fn cook_order() {
}

/// Mends a wrongly made order: the kitchen cooks it again, then it is
/// served.
pub fn fix_incorrect_order() {
    cook_order();
    serve_order();
}

/// A breakfast order: the guest chooses the toast, the kitchen chooses the
/// seasonal fruit.
pub struct Breakfast {
    pub toast: String,
    season_fruit: String,
}

impl Breakfast {
    /// The chosen toast.
    pub closed spec fn spec_toast(&self) -> Seq<char> {
        self.toast@
    }

    /// The seasonal fruit that comes with the meal.
    pub closed spec fn spec_season_fruit(&self) -> Seq<char> {
        self.season_fruit@
    }

    /// The summer menu: the chosen toast with peaches on the side.
    pub fn summer(toast: &str) -> (b: Breakfast)
        ensures
            b.spec_toast() == toast@,
            b.spec_season_fruit() == "peaches"@,
    {
        Breakfast { toast: String::from_str(toast), season_fruit: String::from_str("peaches") }
    }
}

/// The starters on the menu.
pub enum Appetizer {
    Soup,
    Salad,
}

} // verus!
