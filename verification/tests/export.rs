use ems_terrain::export::ifc::{
    write_index_list, write_vertex_list, IfcWriter, FOOTER, MODEL_DEFINITION, PROPERTIES,
    RESERVED_IDS, STYLE,
};
use ems_terrain::pipeline::generate;
use ems_terrain::providers::grid::construct_grid;
use ems_terrain::providers::Punkt;
use ems_terrain::export::ProjectMetadata;
use ems_terrain::mesh::Mesh;
use ems_terrain::vertex::Vertex;

fn metadata() -> ProjectMetadata {
    ProjectMetadata {
        author: "ems".to_string(),
        application_name: "ems_terrain".to_string(),
        application_version: "0.1.0".to_string(),
        project_name: "JM - Granitten".to_string(),
        site_name: "Karihaugveien 22".to_string(),
        site_description: "unused".to_string(),
    }
}

fn triangle() -> Mesh {
    Mesh::new(
        vec![0, 1, 2],
        vec![Vertex::new(0, 0, 0), Vertex::new(100, 0, 0), Vertex::new(0, 100, 0)],
    )
}

fn text(bytes: Vec<u8>) -> String {
    String::from_utf8(bytes).unwrap()
}

#[test]
fn a_triangle_is_written_as_three_points_and_one_face() {
    let mut writer = IfcWriter::with_timestamp(None, "2023-09-04T09:29:20");
    writer.add_mesh(&triangle());
    let document = text(writer.finish());
    let points = "\n#94=IFCCARTESIANPOINTLIST3D(((0.00,0.00,0.00),(1.00,0.00,0.00),(0.00,1.00,0.00)));";
    let faces = "\n#53=IFCTRIANGULATEDFACESET(#94,$,$,((1,2,3)),$);";
    assert!(document.contains(points));
    assert!(document.contains(faces));
    assert!(document.ends_with(&format!("{}{}\nENDSEC;\nEND-ISO-10303-21;", points, faces)));
    assert_eq!(document.matches("#94=").count(), 1);
    assert_eq!(document.matches("#53=").count(), 1);
}

#[test]
fn the_point_list_has_two_decimals() {
    let vertices = vec![
        Vertex::new(11_278_200, 121_701_200, 12_345),
        Vertex::new(-5, 7, -100),
        Vertex::new(i32::MAX, i32::MIN, 0),
    ];
    assert_eq!(
        write_vertex_list(&vertices),
        "\n#94=IFCCARTESIANPOINTLIST3D(((112782.00,1217012.00,123.45),(-0.05,0.07,-1.00),(21474836.47,-21474836.48,0.00)));"
    );
    assert_eq!(write_vertex_list(&Vec::new()), "\n#94=IFCCARTESIANPOINTLIST3D(());");
}

#[test]
fn the_face_set_counts_from_one() {
    assert_eq!(
        write_index_list(&vec![0, 3, 1, 1, 3, 4]),
        "\n#53=IFCTRIANGULATEDFACESET(#94,$,$,((1,4,2),(2,4,5)),$);"
    );
    assert_eq!(write_index_list(&Vec::new()), "\n#53=IFCTRIANGULATEDFACESET(#94,$,$,(),$);");
    assert_eq!(
        write_index_list(&vec![u32::MAX, 9, 99]),
        "\n#53=IFCTRIANGULATEDFACESET(#94,$,$,((4294967296,10,100)),$);"
    );
}

#[test]
fn the_header_names_its_origin() {
    let header = IfcWriter::generate_header(&metadata(), "2023-09-04T09:29:20");
    let expected = r#"ISO-10303-21;
HEADER;
FILE_DESCRIPTION(('Option [Terrengmodell: On]'),'2;1');
FILE_NAME('','2023-09-04T09:29:20',(ems),(''),'DDS_IFC v3.0','ems_terrain build 0.1.0','DDS');
FILE_SCHEMA(('IFC4'));
ENDSEC;
DATA;

/* APPLICATION */
#34=IFCPERSON($,$,'',$,$,$,$,$);
#35=IFCORGANIZATION($,'',$,$,$);
#36=IFCORGANIZATION($,'Data Design System AS',$,$,$);
#6=IFCPERSONANDORGANIZATION(#34,#35,$);
#37=IFCCARTESIANPOINT((0.,0.,0.));
#7=IFCAPPLICATION(#36,'0.1.0','ems_terrain','ems_terrain');

/* PROJECT */
#1=IFCPROJECT('3rPWK2ZfD6bBH524n2KTpl',#2,'JM - Granitten',$,$,$,$,(#3),#4);
#33=IFCSITE('25Nbteh8zCUQrx_1EOgClS',$,'Karihaugveien 22',$,$,#51,$,$,.ELEMENT.,$,$,$,$,$);
#2=IFCOWNERHISTORY(#6,#7,$,.NOCHANGE.,$,$,$,1693812560);
#3=IFCGEOMETRICREPRESENTATIONCONTEXT($,'Model',3,1.E-05,#8,#9);
#5=IFCRELAGGREGATES('2kzQ1oOxb5l9$1Jt6usF8_',$,$,$,#1,(#33));
#8=IFCAXIS2PLACEMENT3D(#901,$,$);
#9=IFCDIRECTION((0.,1.));
"#;
    assert_eq!(header, expected);
}

#[test]
fn a_document_is_envelope_mesh_and_closing() {
    let mut writer = IfcWriter::with_timestamp(Some(metadata()), "2024-01-02T03:04:05");
    let mesh = triangle();
    writer.add_mesh(&mesh);
    let document = text(writer.finish());
    let expected = format!(
        "{}{}{}{}{}{}",
        IfcWriter::generate_header(&metadata(), "2024-01-02T03:04:05"),
        MODEL_DEFINITION,
        STYLE,
        write_vertex_list(&mesh.vertices),
        write_index_list(&mesh.indices),
        FOOTER
    );
    assert_eq!(document, expected);
    assert!(document.starts_with("ISO-10303-21;\nHEADER;\n"));
    assert!(document.ends_with("\nENDSEC;\nEND-ISO-10303-21;"));
}

#[test]
fn a_writer_without_metadata_goes_by_the_default() {
    let document = text(IfcWriter::with_timestamp(None, "now").finish());
    let default = ProjectMetadata::default();
    assert_eq!(default.author, "Default Author");
    assert_eq!(default.application_name, "Default Application");
    assert_eq!(default.application_version, "1.0.0");
    assert_eq!(default.project_name, "Default Project");
    assert_eq!(default.site_name, "Site");
    assert_eq!(default.site_description, "Generated terrain model");
    assert!(document.starts_with(&IfcWriter::generate_header(&default, "now")));
    assert!(document.contains("FILE_NAME('','now',(Default Author),(''),'DDS_IFC v3.0','Default Application build 1.0.0','DDS');"));
    assert!(document.contains("#7=IFCAPPLICATION(#36,'1.0.0','Default Application','Default Application');"));
    assert!(document.contains("#1=IFCPROJECT('3rPWK2ZfD6bBH524n2KTpl',#2,'Default Project',$,$,$,$,(#3),#4);"));
    assert!(document.contains("#33=IFCSITE('25Nbteh8zCUQrx_1EOgClS',$,'Site',$,$,#51,$,$,.ELEMENT.,$,$,$,$,$);"));
}

#[test]
fn a_new_writer_is_stamped_with_the_time() {
    let document = text(IfcWriter::new(Some(metadata())).finish());
    let open = "FILE_NAME('','";
    let start = document.find(open).unwrap() + open.len();
    let stamp = &document[start..start + 19];
    let shape: String =
        stamp.chars().map(|c| if c.is_ascii_digit() { '0' } else { c }).collect();
    assert_eq!(shape, "0000-00-00T00:00:00");
    assert_eq!(&document[start + 19..start + 22], "',(");
    let rest = format!("{}{}", &document[..start], &document[start + 19..]);
    let expected = text(IfcWriter::with_timestamp(Some(metadata()), "").finish());
    assert_eq!(rest, expected);
}

#[test]
fn metadata_is_written_as_utf8() {
    let mut given = metadata();
    given.site_name = "Innmålt tomt".to_string();
    let bytes = IfcWriter::with_timestamp(Some(given), "t").finish();
    let document = String::from_utf8(bytes.clone()).unwrap();
    assert!(document.contains("'Innmålt tomt'"));
    assert_eq!(bytes.len(), document.chars().count() + 1);
}

#[test]
fn the_envelope_holds_the_model_and_the_style() {
    let document = text(IfcWriter::with_timestamp(None, "t").finish());
    assert_eq!(IfcWriter::generate_model_definition(), MODEL_DEFINITION);
    assert_eq!(IfcWriter::generate_style(), STYLE);
    assert!(MODEL_DEFINITION.starts_with("/* MODEL */\n/* MODEL */\n#10="));
    assert!(MODEL_DEFINITION.ends_with("#1006=IFCLOCALPLACEMENT(#1005,#1004);\n"));
    assert!(STYLE.starts_with("\n\n/* STYLE */\n#164="));
    assert!(STYLE.ends_with("#161=IFCSTYLEDITEM(#53,(#162,#163),$);\n"));
    assert!(document.ends_with(&format!("{}{}{}", MODEL_DEFINITION, STYLE, FOOTER)));
    assert!(document.contains("#54=IFCPRESENTATIONLAYERASSIGNMENT('NO_Bergmodell',$,(#53,#38),'BldBfc.3299');"));
    assert!(document.contains("#38=IFCSHAPEREPRESENTATION(#10,'Body','Tessellation',(#53));"));
}

#[test]
fn entity_numbers_start_above_the_reserved_ones() {
    let mut writer = IfcWriter::with_timestamp(None, "t");
    assert_eq!(RESERVED_IDS, 1100);
    assert_eq!(writer.next_id(), 1101);
    assert_eq!(writer.next_id(), 1102);
    writer.add_mesh(&triangle());
    assert_eq!(writer.next_id(), 1103);
    let document = text(writer.finish());
    assert!(!document.contains("#1101"));
}

#[test]
fn an_invalid_mesh_is_written_as_it_is() {
    let mesh = Mesh::new(vec![7, 8, 9], vec![Vertex::new(1, 2, 3)]);
    let mut writer = IfcWriter::with_timestamp(None, "t");
    writer.add_mesh(&mesh);
    let document = text(writer.finish());
    assert!(document.contains("#94=IFCCARTESIANPOINTLIST3D(((0.01,0.02,0.03)));"));
    assert!(document.contains("#53=IFCTRIANGULATEDFACESET(#94,$,$,((8,9,10)),$);"));
}

#[test]
fn a_mesh_writes_its_own_lists() {
    let mesh = triangle();
    assert_eq!(mesh.write_vertex_list(), write_vertex_list(&mesh.vertices));
    assert_eq!(mesh.write_index_list(), write_index_list(&mesh.indices));
    assert_eq!(mesh.write_index_list(), "\n#53=IFCTRIANGULATEDFACESET(#94,$,$,((1,2,3)),$);");
}

/// The numbers of the entities that a document defines, and of those that it names.
fn entities(document: &str) -> (Vec<u32>, Vec<u32>) {
    let mut defined = Vec::new();
    let mut named = Vec::new();
    for line in document.lines() {
        let bytes = line.as_bytes();
        let mut i = 0;
        while i < bytes.len() {
            if bytes[i] == b'#' {
                let mut j = i + 1;
                while j < bytes.len() && bytes[j].is_ascii_digit() {
                    j += 1;
                }
                if j > i + 1 {
                    let number: u32 = line[i + 1..j].parse().unwrap();
                    if i == 0 && j < bytes.len() && bytes[j] == b'=' {
                        defined.push(number);
                    } else {
                        named.push(number);
                    }
                }
                i = j;
            } else {
                i += 1;
            }
        }
    }
    (defined, named)
}

fn assert_every_reference_resolves(document: &str) {
    let (defined, named) = entities(document);
    assert!(!named.is_empty());
    for number in &defined {
        assert_eq!(defined.iter().filter(|d| *d == number).count(), 1, "#{} is defined twice", number);
    }
    for number in &named {
        assert!(defined.contains(number), "#{} is named and not defined", number);
    }
}

#[test]
fn every_entity_that_a_document_names_is_defined_once() {
    let mut writer = IfcWriter::with_timestamp(Some(metadata()), "2023-09-04T09:29:20");
    writer.add_mesh(&triangle());
    let document = text(writer.finish());
    assert_every_reference_resolves(&document);
    let (defined, named) = entities(&document);
    assert!(defined.contains(&8) && defined.contains(&9) && defined.contains(&57));
    assert!(defined.contains(&53) && defined.contains(&94));
    assert!(named.contains(&53) && named.contains(&94) && named.contains(&76));
    assert!(!named.contains(&77) && !named.contains(&93));
    assert!(defined.iter().all(|n| *n <= RESERVED_IDS as u32));
}

#[test]
fn every_entity_is_defined_once_with_the_properties_too() {
    let mut writer = IfcWriter::with_timestamp(None, "2023-09-04T09:29:20");
    writer.add_properties();
    writer.add_mesh(&triangle());
    let document = text(writer.finish());
    assert_every_reference_resolves(&document);
    let (defined, _) = entities(&document);
    for number in [116, 117, 118, 119].into_iter().chain(138..=160) {
        assert!(defined.contains(&number));
    }
}

#[test]
fn the_document_of_a_point_grid_defines_what_it_names() {
    let grid = construct_grid(0, 1000, 0, 1000, 500).unwrap();
    let punkter: Vec<Punkt> = grid.points.iter().map(|p| Punkt { z: Some(150), ..*p }).collect();
    let document = text(generate(&grid, &punkter, None));
    assert_every_reference_resolves(&document);
    assert!(document.contains(PROPERTIES));
    assert_eq!(document.matches("/* PROPERTIES */").count(), 1);
}

#[test]
fn the_envelope_alone_waits_for_the_geometry_only() {
    let document = text(IfcWriter::with_timestamp(None, "t").finish());
    let (defined, named) = entities(&document);
    let mut open: Vec<u32> = named.into_iter().filter(|n| !defined.contains(n)).collect();
    open.sort();
    open.dedup();
    assert_eq!(open, vec![53]);
}

#[test]
fn the_properties_are_written_once() {
    let mut writer = IfcWriter::with_timestamp(None, "t");
    assert!(!writer.holds_properties());
    assert!(!writer.holds_mesh());
    writer.add_properties();
    assert!(writer.holds_properties());
    assert!(!writer.holds_mesh());
    writer.add_mesh(&triangle());
    assert!(writer.holds_properties());
    assert!(writer.holds_mesh());
    let document = text(writer.finish());
    let expected = format!(
        "{}{}{}",
        PROPERTIES,
        write_vertex_list(&triangle().vertices),
        write_index_list(&triangle().indices)
    );
    assert!(document.ends_with(&format!("{}{}", expected, FOOTER)));
    assert!(PROPERTIES.starts_with("\n/* PROPERTIES */\n#116=IFCRELASSIGNSTOGROUP("));
    assert!(PROPERTIES.ends_with("#160=IFCPROPERTYSINGLEVALUE('BlockRef','',IFCLABEL('NO_Bergmodell'),$);\n"));
    assert!(PROPERTIES.contains("IFCLABEL('Innmålt')"));
}

#[test]
fn a_writer_tells_whether_it_holds_a_mesh() {
    let grid = construct_grid(0, 500, 0, 500, 500).unwrap();
    let mut writer = IfcWriter::with_timestamp(None, "t");
    assert!(!writer.holds_mesh());
    writer.add_points(&grid.generate_triangle_indices(), &grid.points);
    assert!(writer.holds_mesh());
    assert!(!writer.holds_properties());
    assert_every_reference_resolves(&text(writer.finish()));
}
