use customer_locator::customer::{Customer, CustomerList};
use customer_locator::location::Location;

fn loc(latitude: f64, longitude: f64) -> Location {
    Location::new(latitude.to_bits(), longitude.to_bits())
}

#[test]
fn customer_new_builds_a_correct_instance() {
    let actual_customer = Customer::new(1000i64, "Jose Narvaez", &Location::dublin());
    let expected_customer = Customer {
        user_id: 1000i64,
        name: String::from("Jose Narvaez"),
        latitude: Location::dublin().latitude,
        longitude: Location::dublin().longitude,
    };
    assert_eq!(expected_customer, actual_customer);
}

#[test]
fn customer_location_returns_a_correct_instance_of_location() {
    let expected_location = Location::dublin();
    let customer = Customer::new(1000i64, "Jose Narvaez", &expected_location);
    assert_eq!(customer.location(), expected_location);
}

#[test]
fn customer_list_from_vec_builds_a_correct_instance() {
    let jose = Customer::new(1, "Jose Narvaez", &Location::dublin());
    let carlos = Customer::new(2, "Carlos Narvaez", &loc(-33.4489, -70.6693));
    let expected = vec![jose.clone(), carlos.clone()];
    let actual_cust_list = CustomerList::from_vec(vec![jose, carlos]);
    assert_eq!(expected, actual_cust_list.into_vec());
}

#[test]
fn customer_list_sort_by_user_id_sorts_the_list_in_place() {
    let santiago = loc(-33.4489, -70.6693);
    let jose = Customer::new(3, "Jose Narvaez", &Location::dublin());
    let carlos = Customer::new(2, "Carlos Narvaez", &santiago);
    let maho = Customer::new(1, "Maholys Narvaez", &santiago);
    let expected_list = CustomerList::from_vec(vec![maho.clone(), carlos.clone(), jose.clone()]);
    let mut sorted_list = CustomerList::from_vec(vec![jose, carlos, maho]);
    sorted_list.sort_by_user_id();

    assert_eq!(expected_list, sorted_list);
}

#[test]
fn sort_by_user_id_keeps_duplicate_ids_in_original_order() {
    let here = Location::dublin();
    let records = vec![
        Customer::new(2, "first two", &here),
        Customer::new(1, "first one", &here),
        Customer::new(2, "second two", &here),
        Customer::new(1, "second one", &here),
    ];
    let mut list = CustomerList::from_vec(records);
    list.sort_by_user_id();
    let sorted = list.into_vec();
    let names: Vec<&str> = sorted.iter().map(|c| c.name.as_str()).collect();
    assert_eq!(vec!["first one", "second one", "first two", "second two"], names);
    let ids: Vec<i64> = sorted.iter().map(|c| c.user_id).collect();
    assert_eq!(vec![1, 1, 2, 2], ids);
}

#[test]
fn from_vec_then_into_vec_round_trips_the_records() {
    let records = vec![
        Customer::new(7, "Ian Kehoe", &loc(53.2451022, -6.238335)),
        Customer::new(3, "Nora Dempsey", &loc(53.1302756, -6.2397222)),
        Customer::new(7, "Theresa Enright", &loc(53.1229599, -6.2705202)),
    ];
    let round_tripped = CustomerList::from_vec(records.clone()).into_vec();
    assert_eq!(records, round_tripped);
}

#[test]
fn customer_with_nan_coordinate_equals_nothing() {
    let well_formed = Customer::new(1, "someone", &Location::dublin());
    let with_nan = Customer::new(1, "someone", &loc(f64::NAN, -6.2576841));
    assert_ne!(with_nan, well_formed);
    assert_ne!(with_nan.clone(), with_nan);
    assert_eq!(well_formed.clone(), well_formed);
}
