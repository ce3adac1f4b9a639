use product_crawler::crawl::Crawler;
use product_crawler::dedup::Deduplicator;
use product_crawler::pipeline::{normalize_capacity, normalize_price, process_fragment, PipelineError};
use product_crawler::record::{ProductRecord, RawFragment};

const BASE: &str = "https://shop.example.test/phones";

fn sample_fragment() -> RawFragment {
    RawFragment {
        title: Some(String::from("Phone Alpha 5G")),
        price: Some(String::from("\u{a3}399.99")),
        capacity: Some(String::from("128")),
        image: Some(Some(String::from("../images/alpha.jpg"))),
        availability: Some(String::from("Availability: In Stock")),
        shipping: Some(String::from("Availability: In Stock\n15 March 2024")),
        colours: vec![
            String::from("Black"),
            String::from("Blue"),
            String::from("Red"),
        ],
    }
}

fn sample_record() -> ProductRecord {
    ProductRecord {
        title: String::from("Phone Alpha 5G"),
        price: Some(String::from("399.99")),
        image_url: String::from("https://shop.example.test/phones/images/alpha.jpg"),
        capacity_mb: 128000,
        colour: String::from("Black"),
        availability_text: String::from("Availability: In Stock"),
        is_available: true,
        shipping_text: String::from("Availability: In Stock\n15 March 2024"),
        shipping_date: String::from("2024-03-15"),
    }
}

#[test]
fn dedup_insert_twice_size_unchanged() {
    let mut d = Deduplicator::new();
    d.insert(sample_record());
    assert_eq!(d.len(), 1);
    d.insert(sample_record());
    assert_eq!(d.len(), 1);
    let out = d.finalize();
    assert_eq!(out.len(), 1);
    assert_eq!(out[0], sample_record());
}

#[test]
fn dedup_keeps_distinct_records() {
    let mut d = Deduplicator::new();
    d.insert(sample_record());
    let mut other = sample_record();
    other.colour = String::from("Blue");
    d.insert(other);
    assert_eq!(d.len(), 2);
}

#[test]
fn variant_fanout_three_colours() {
    let recs = process_fragment(&sample_fragment(), BASE).unwrap();
    assert_eq!(recs.len(), 3);
    assert_eq!(recs[0].colour, "Black");
    assert_eq!(recs[1].colour, "Blue");
    assert_eq!(recs[2].colour, "Red");
    for r in &recs {
        assert_eq!(r.title, recs[0].title);
        assert_eq!(r.price, recs[0].price);
        assert_eq!(r.image_url, recs[0].image_url);
        assert_eq!(r.capacity_mb, recs[0].capacity_mb);
        assert_eq!(r.availability_text, recs[0].availability_text);
        assert_eq!(r.is_available, recs[0].is_available);
        assert_eq!(r.shipping_text, recs[0].shipping_text);
        assert_eq!(r.shipping_date, recs[0].shipping_date);
    }
    assert_eq!(recs[0], sample_record());
}

#[test]
fn out_of_stock_forces_empty_date() {
    let mut f = sample_fragment();
    f.availability = Some(String::from("Availability: Out of Stock"));
    f.shipping = Some(String::from("Ships 15 March 2024"));
    let recs = process_fragment(&f, BASE).unwrap();
    assert_eq!(recs.len(), 3);
    for r in &recs {
        assert_eq!(r.shipping_date, "");
        assert!(!r.is_available);
        assert_eq!(r.shipping_text, "Ships 15 March 2024");
    }
}

#[test]
fn out_of_stock_in_shipping_text_forces_empty_date() {
    let mut f = sample_fragment();
    f.shipping = Some(String::from("Availability: Out of Stock\n15 March 2024"));
    let recs = process_fragment(&f, BASE).unwrap();
    for r in &recs {
        assert_eq!(r.shipping_date, "");
    }
}

#[test]
fn capacity_scaling() {
    assert_eq!(normalize_capacity("128"), Some(128000));
    let recs = process_fragment(&sample_fragment(), BASE).unwrap();
    assert_eq!(recs[0].capacity_mb, 128000);
}

#[test]
fn capacity_overflow_is_fatal() {
    assert_eq!(normalize_capacity("4294968"), None);
    let mut f = sample_fragment();
    f.capacity = Some(String::from("4294968"));
    assert_eq!(process_fragment(&f, BASE), Err(PipelineError::BadCapacity));
}

#[test]
fn capacity_without_digits_is_fatal() {
    let mut f = sample_fragment();
    f.capacity = Some(String::from("many"));
    assert_eq!(process_fragment(&f, BASE), Err(PipelineError::BadCapacity));
}

#[test]
fn price_stripping() {
    assert_eq!(normalize_price("\u{a3}399.99"), Ok(Some(String::from("399.99"))));
    assert_eq!(normalize_price("Contact us"), Ok(None));
    let recs = process_fragment(&sample_fragment(), BASE).unwrap();
    let p = recs[0].price.clone().unwrap();
    assert_eq!(p.parse::<f64>().unwrap(), 399.99);
}

#[test]
fn price_without_digits_is_absent() {
    let mut f = sample_fragment();
    f.price = Some(String::from("Contact us"));
    let recs = process_fragment(&f, BASE).unwrap();
    assert_eq!(recs[0].price, None);
}

#[test]
fn malformed_price_is_fatal() {
    assert_eq!(normalize_price("..."), Err(PipelineError::BadPrice));
    assert_eq!(normalize_price("1.2.3"), Err(PipelineError::BadPrice));
    let mut f = sample_fragment();
    f.price = Some(String::from("1.2.3"));
    assert_eq!(process_fragment(&f, BASE), Err(PipelineError::BadPrice));
}

#[test]
fn bad_price_reported_before_bad_capacity() {
    let mut f = sample_fragment();
    f.price = Some(String::from("..."));
    f.capacity = Some(String::from("none"));
    assert_eq!(process_fragment(&f, BASE), Err(PipelineError::BadPrice));
}

#[test]
fn completeness_gate_missing_image() {
    let mut f = sample_fragment();
    f.image = None;
    let recs = process_fragment(&f, BASE).unwrap();
    assert_eq!(recs.len(), 0);
}

#[test]
fn completeness_gate_missing_title() {
    let mut f = sample_fragment();
    f.title = None;
    assert_eq!(process_fragment(&f, BASE).unwrap().len(), 0);
}

#[test]
fn incomplete_fragment_skips_even_bad_numbers() {
    let mut f = sample_fragment();
    f.image = None;
    f.capacity = Some(String::from("not numeric"));
    assert_eq!(process_fragment(&f, BASE).unwrap().len(), 0);
}

#[test]
fn empty_colour_list_yields_no_records() {
    let mut f = sample_fragment();
    f.colours = Vec::new();
    assert_eq!(process_fragment(&f, BASE).unwrap().len(), 0);
}

#[test]
fn missing_image_attribute_gives_empty_url() {
    let mut f = sample_fragment();
    f.image = Some(None);
    let recs = process_fragment(&f, BASE).unwrap();
    assert_eq!(recs[0].image_url, "");
}

#[test]
fn relative_image_path_is_rewritten() {
    let recs = process_fragment(&sample_fragment(), BASE).unwrap();
    assert_eq!(
        recs[0].image_url,
        "https://shop.example.test/phones/images/alpha.jpg"
    );
}

#[test]
fn every_relative_prefix_is_rewritten() {
    let mut f = sample_fragment();
    f.image = Some(Some(String::from("../../x.jpg")));
    let recs = process_fragment(&f, "B").unwrap();
    assert_eq!(recs[0].image_url, "B/B/x.jpg");
}

#[test]
fn pagination_termination() {
    let mut c = Crawler::new();
    let page1 = vec![sample_fragment()];
    assert_eq!(c.on_page(&page1, BASE), Ok(true));
    let empty: Vec<RawFragment> = Vec::new();
    assert_eq!(c.on_page(&empty, BASE), Ok(false));
    let out = c.finish();
    assert_eq!(out.len(), 3);
}

#[test]
fn crawl_dedups_across_pages() {
    let mut c = Crawler::new();
    let page = vec![sample_fragment()];
    assert_eq!(c.on_page(&page, BASE), Ok(true));
    assert_eq!(c.on_page(&page, BASE), Ok(true));
    let empty: Vec<RawFragment> = Vec::new();
    assert_eq!(c.on_page(&empty, BASE), Ok(false));
    let out = c.finish();
    assert_eq!(out.len(), 3);
}

#[test]
fn crawl_page_addresses_count_up() {
    let mut c = Crawler::new();
    assert_eq!(c.current_url("https://shop.example.test/phones"), format!("{}/1", BASE));
    let page = vec![sample_fragment()];
    c.on_page(&page, BASE).unwrap();
    assert_eq!(c.current_url(BASE), format!("{}/2", BASE));
    c.on_page(&page, BASE).unwrap();
    assert_eq!(c.current_url(BASE), format!("{}/3", BASE));
}

#[test]
fn fatal_fragment_aborts_page() {
    let mut c = Crawler::new();
    let mut bad = sample_fragment();
    bad.capacity = Some(String::from("big"));
    let page = vec![sample_fragment(), bad];
    assert_eq!(c.on_page(&page, BASE), Err(PipelineError::BadCapacity));
}

#[test]
fn in_stock_flag_follows_phrase() {
    let recs = process_fragment(&sample_fragment(), BASE).unwrap();
    assert!(recs[0].is_available);
    let mut f = sample_fragment();
    f.availability = Some(String::from("Availability: Out of Stock"));
    let recs = process_fragment(&f, BASE).unwrap();
    assert!(!recs[0].is_available);
}

#[test]
fn page_addresses_reach_two_digits() {
    let mut c = Crawler::new();
    let page = vec![sample_fragment()];
    for _ in 0..11 {
        assert_eq!(c.on_page(&page, BASE), Ok(true));
    }
    assert_eq!(c.current_url(BASE), format!("{}/12", BASE));
}
