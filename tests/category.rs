use storefront::category::{group_categories, Category};
use storefront::row::{Column, Row, Value};

fn cat(id: i32, parent: Option<i32>) -> Category {
    Category { id, name: format!("c{}", id), parent_id: parent, children: Vec::new() }
}

#[test]
fn forest_from_flat_rows() {
    let cats = vec![cat(1, None), cat(2, Some(1)), cat(3, Some(1)), cat(4, Some(2)), cat(5, None)];
    let forest = group_categories(None, &cats);
    assert_eq!(forest.len(), 2);
    assert_eq!(forest[0].id, 1);
    assert_eq!(forest[1].id, 5);
    let kids: Vec<i32> = forest[0].children.iter().map(|c| c.id).collect();
    assert_eq!(kids, vec![2, 3]);
    assert_eq!(forest[0].children[0].children[0].id, 4);
    assert!(forest[0].children[1].children.is_empty());
    assert!(forest[1].children.is_empty());
}

#[test]
fn subtree_of_one_category() {
    let cats = vec![cat(1, None), cat(2, Some(1)), cat(3, Some(2))];
    let below = group_categories(Some(1), &cats);
    assert_eq!(below.len(), 1);
    assert_eq!(below[0].id, 2);
    assert_eq!(below[0].children[0].id, 3);
}

#[test]
fn cycle_does_not_hang() {
    let cats = vec![cat(1, Some(2)), cat(2, Some(1))];
    assert!(group_categories(None, &cats).is_empty());
    let below = group_categories(Some(1), &cats);
    assert_eq!(below.len(), 1);
    assert_eq!(below[0].id, 2);
}

#[test]
fn empty_input() {
    assert!(group_categories(None, &Vec::new()).is_empty());
}

#[test]
fn category_from_row() {
    let row = Row {
        columns: vec![
            Column { name: "id".to_string(), value: Value::Int(3) },
            Column { name: "name".to_string(), value: Value::Text("Shoes".to_string()) },
            Column { name: "parent_id".to_string(), value: Value::Null },
        ],
    };
    let c = Category::try_from(&row).unwrap();
    assert_eq!(c.id, 3);
    assert_eq!(c.name, "Shoes");
    assert_eq!(c.parent_id, None);
    assert!(c.children.is_empty());
}
