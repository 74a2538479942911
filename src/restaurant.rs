use vstd::prelude::*;

verus! {

/// A pizza order: its dough, cheese and topping.
pub struct Pizza {
    pub dough: String,
    pub cheese: String,
    pub topping: String,
}

/// The topping of every order taken at the counter.
pub open spec fn house_topping() -> Seq<char> {
    "veggies"@
}

impl Pizza {
    /// The lunch pizza: regular crust, mozzarella, and the given topping.
    pub fn lunch(topping: String) -> (p: Pizza)
        ensures
            p.dough@ == "regular crust"@,
            p.cheese@ == "mozzarella"@,
            p.topping@ == topping@,
    {
        Pizza {
            dough: String::from_str("regular crust"),
            cheese: String::from_str("mozzarella"),
            topping,
        }
    }
}

/// Takes a customer's order: a lunch pizza with vegetables.
pub fn take_order() -> (p: Pizza)
    ensures
        p.dough@ == "regular crust"@,
        p.cheese@ == "mozzarella"@,
        p.topping@ == house_topping(),
{
    Pizza::lunch(String::from_str("veggies"))
}

/// The line announced when a pizza is served.
pub fn serve_customer(cust_pizza: &Pizza) -> (r: String)
    ensures
        r@ == "Serving pizza with "@ + cust_pizza.topping@ + " topping."@,
{
    let line = String::from_str("Serving pizza with ");
    let line = line.concat(cust_pizza.topping.as_str());
    line.concat(" topping.")
}

/// Orders food at the restaurant: the order taken at the counter.
pub fn order_food() -> (p: Pizza)
    ensures
        p.dough@ == "regular crust"@,
        p.cheese@ == "mozzarella"@,
        p.topping@ == house_topping(),
{
    take_order()
}

} // verus!
