use customer_locator::customer::{Customer, CustomerList};
use customer_locator::customer_datasource::InMemorySource;
use customer_locator::customer_locator::CustomerLocator;
use customer_locator::location::Location;
use customer_locator::units::Kilometers;

const EARTH_RADIUS_IN_KM: f64 = 6372.8;

fn loc(latitude: f64, longitude: f64) -> Location {
    Location::new(latitude.to_bits(), longitude.to_bits())
}

/// The great-circle distance in kilometers between two locations, by the
/// haversine formula over the coordinate bit patterns.
fn haversine_km(a: &Location, b: &Location) -> f64 {
    let lat1 = f64::from_bits(a.latitude);
    let lon1 = f64::from_bits(a.longitude);
    let lat2 = f64::from_bits(b.latitude);
    let lon2 = f64::from_bits(b.longitude);
    let delta_latitude = (lat2 - lat1).to_radians();
    let delta_longitude = (lon2 - lon1).to_radians();
    let h = (delta_latitude / 2.0).sin().powi(2)
        + lat1.to_radians().cos() * lat2.to_radians().cos() * (delta_longitude / 2.0).sin().powi(2);
    let c = 2.0 * h.sqrt().atan2((1.0 - h).sqrt());
    EARTH_RADIUS_IN_KM * c
}

fn distances_from(records: &[Customer], reference: &Location) -> Vec<Kilometers> {
    records
        .iter()
        .map(|c| Kilometers(haversine_km(&c.location(), reference).to_bits()))
        .collect()
}

fn generate_customer_list() -> CustomerList {
    let santiago = loc(-33.4489, -70.6693);
    let jose = Customer::new(3, "Jose Narvaez", &Location::dublin());
    let carlos = Customer::new(2, "Carlos Narvaez", &santiago);
    CustomerList::from_vec(vec![carlos, jose])
}

fn sixteen_customers() -> Vec<Customer> {
    vec![
        Customer::new(1, "Ian Kehoe", &loc(53.2451022, -6.238335)),
        Customer::new(2, "Nora Dempsey", &loc(53.1302756, -6.2397222)),
        Customer::new(3, "Theresa Enright", &loc(53.1229599, -6.2705202)),
        Customer::new(4, "Eoin Ahearn", &loc(54.0894797, -6.18671)),
        Customer::new(5, "Richard Finnegan", &loc(53.008769, -6.1056711)),
        Customer::new(6, "Christina McArdle", &loc(52.986375, -6.043701)),
        Customer::new(7, "Olive Ahearn", &loc(53.00, -7.00)),
        Customer::new(8, "Michael Ahearn", &loc(52.966, -6.463)),
        Customer::new(9, "Patricia Cahill", &loc(54.180238, -5.920898)),
        Customer::new(10, "Eoin Gallagher", &loc(54.080556, -6.361944)),
        Customer::new(11, "Rose Enright", &loc(54.133333, -6.433333)),
        Customer::new(12, "Stephen McArdle", &loc(53.038056, -7.653889)),
        Customer::new(13, "Oliver Ahearn", &loc(53.74452, -7.11167)),
        Customer::new(14, "Nick Enright", &loc(53.761389, -7.2875)),
        Customer::new(15, "Alan Behan", &loc(53.1489345, -6.8422408)),
        Customer::new(16, "Lisa Ahearn", &loc(53.0033946, -6.3877505)),
    ]
}

#[test]
fn new_builds_a_correct_instance_from_a_customer_list() {
    let customer_list = generate_customer_list();
    let expected_locator = CustomerLocator::new(customer_list.clone());
    let actual_locator = CustomerLocator::new(customer_list);

    assert_eq!(expected_locator, actual_locator);
}

#[test]
fn from_source_builds_a_correct_instance_from_any_type_impl_datasource() {
    let expected_locator = CustomerLocator::new(generate_customer_list());
    let source = InMemorySource::new(generate_customer_list());
    let actual_locator = CustomerLocator::from_source(source).unwrap();

    assert_eq!(expected_locator, actual_locator);
}

#[test]
fn from_source_propagates_the_error_from_the_datasource() {
    let expected_error = String::from("unrecoverable error");
    let source = InMemorySource::failing("unrecoverable error");
    let actual_error = CustomerLocator::from_source(source).unwrap_err();

    assert_eq!(expected_error, actual_error);
}

#[test]
fn locate_within_locates_the_users_within_the_give_radius() {
    let all_customers = sixteen_customers();

    let expected_customers = CustomerList::from_vec(vec![
        Customer::new(1, "Ian Kehoe", &loc(53.2451022, -6.238335)),
        Customer::new(2, "Nora Dempsey", &loc(53.1302756, -6.2397222)),
        Customer::new(3, "Theresa Enright", &loc(53.1229599, -6.2705202)),
        Customer::new(5, "Richard Finnegan", &loc(53.008769, -6.1056711)),
        Customer::new(6, "Christina McArdle", &loc(52.986375, -6.043701)),
        Customer::new(8, "Michael Ahearn", &loc(52.966, -6.463)),
        Customer::new(15, "Alan Behan", &loc(53.1489345, -6.8422408)),
        Customer::new(16, "Lisa Ahearn", &loc(53.0033946, -6.3877505)),
    ]);

    let reference = Location::dublin();
    let distances = distances_from(&all_customers, &reference);
    let locator = CustomerLocator::new(CustomerList::from_vec(all_customers));
    let actual_customers = locator.locate_within(&Kilometers(50.00f64.to_bits()), &distances);
    assert_eq!(expected_customers, actual_customers);
}

#[test]
fn locate_within_then_sort_yields_the_reference_ids_in_order() {
    let all_customers = sixteen_customers();
    let reference = Location::dublin();
    let distances = distances_from(&all_customers, &reference);
    let locator = CustomerLocator::new(CustomerList::from_vec(all_customers));
    let mut found = locator.locate_within(&Kilometers(50.00f64.to_bits()), &distances);
    found.sort_by_user_id();
    let ids: Vec<i64> = found.into_vec().iter().map(|c| c.user_id).collect();
    assert_eq!(vec![1, 2, 3, 5, 6, 8, 15, 16], ids);
}

#[test]
fn locate_within_excludes_a_record_at_exactly_the_radius() {
    let records = vec![Customer::new(1, "on the boundary", &Location::dublin())];
    let locator = CustomerLocator::new(CustomerList::from_vec(records));
    let radius = Kilometers(50.0f64.to_bits());

    let at_radius = vec![Kilometers(50.0f64.to_bits())];
    let excluded = locator.locate_within(&radius, &at_radius);
    assert_eq!(0, excluded.into_vec().len());

    let just_inside = vec![Kilometers(f64::from_bits(50.0f64.to_bits() - 1).to_bits())];
    let included = locator.locate_within(&radius, &just_inside);
    assert_eq!(1, included.into_vec().len());
}

#[test]
fn locate_within_never_admits_a_nan_distance() {
    let records = vec![Customer::new(1, "nowhere", &loc(f64::NAN, f64::NAN))];
    let locator = CustomerLocator::new(CustomerList::from_vec(records));
    let radius = Kilometers(100.0f64.to_bits());
    let distances = vec![Kilometers(f64::NAN.to_bits())];
    let found = locator.locate_within(&radius, &distances);
    assert_eq!(0, found.into_vec().len());
}

#[test]
fn customers_exposes_the_owned_list() {
    let locator = CustomerLocator::new(generate_customer_list());
    let owned = locator.customers();
    assert_eq!(2, owned.len());
    assert_eq!(2, owned.get(0).user_id);
    assert_eq!("Carlos Narvaez", owned.get(0).name.as_str());
    assert_eq!(3, owned.get(1).user_id);
}

#[test]
fn duplicate_produces_an_equal_independent_list() {
    let jose = Customer::new(3, "Jose Narvaez", &Location::dublin());
    let carlos = Customer::new(2, "Carlos Narvaez", &loc(-33.4489, -70.6693));
    let list = CustomerList::from_vec(vec![jose, carlos]);
    let mut copy = list.duplicate();
    assert_eq!(list, copy);
    copy.sort_by_user_id();
    assert_eq!(3, list.get(0).user_id);
    assert_eq!(2, copy.get(0).user_id);
}

#[test]
fn locate_within_leaves_the_locator_reusable() {
    let all_customers = sixteen_customers();
    let reference = Location::dublin();
    let distances = distances_from(&all_customers, &reference);
    let locator = CustomerLocator::new(CustomerList::from_vec(all_customers));
    let first = locator.locate_within(&Kilometers(50.0f64.to_bits()), &distances);
    let second = locator.locate_within(&Kilometers(50.0f64.to_bits()), &distances);
    assert_eq!(first, second);
    let wider = locator.locate_within(&Kilometers(1000.0f64.to_bits()), &distances);
    assert_eq!(16, wider.into_vec().len());
}
