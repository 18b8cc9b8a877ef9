#[test]
fn lib_it_works() {}

#[test]
fn it_works() {}
