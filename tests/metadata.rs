use metro_loop::logic::grid::{ivec2, Grid};
use metro_loop::logic::metadata::MetadataError;

#[test]
fn test_lenient_metadata() {
    let parsed = Grid::parse_metadata_line(Some("root_row=3,root_column=5,"));
    assert_eq!(parsed.unwrap(), ivec2(5, 3));
    let parsed = Grid::parse_metadata_line(Some("root_row=3,root_column=5"));
    assert_eq!(parsed.unwrap(), ivec2(5, 3));
    let parsed = Grid::parse_metadata_line(Some("root_row = 3 , root_column = 5 "));
    assert_eq!(parsed.unwrap(), ivec2(5, 3));
    let parsed = Grid::parse_metadata_line(Some("root_row = 3 , root_column = 5 , "));
    assert_eq!(parsed.unwrap(), ivec2(5, 3));
}

#[test]
fn metadata_errors() {
    assert_eq!(Grid::parse_metadata_line(None), Err(MetadataError::EmptyGrid));
    assert_eq!(Grid::parse_metadata_line(Some("root_row=3=4")), Err(MetadataError::NotAPair(2)));
    assert_eq!(Grid::parse_metadata_line(Some("root_row=x,root_column=1")), Err(MetadataError::BadNumber));
    assert_eq!(Grid::parse_metadata_line(Some("root_column=1")), Err(MetadataError::MissingRootRow));
    assert_eq!(Grid::parse_metadata_line(Some("root_row=-2,size=9")), Err(MetadataError::MissingRootColumn));
    assert_eq!(Grid::parse_metadata_line(Some("root_row=+2,root_column=1,root_row=7")), Ok(ivec2(1, 7)));
    assert_eq!(Grid::parse_metadata_line(Some("root_row=1,,root_column=1")), Err(MetadataError::NotAPair(0)));
}
