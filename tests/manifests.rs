use smv::blocks::parse_smv_file;
use smv::manifest::{ParseSmvError, SmvFile};
use smv::records::GridRegion;

fn push(out: &mut String, line: &str) {
    out.push_str(line);
    out.push('\n');
}

fn trn(out: &mut String, axis: &str, n: usize) {
    push(out, axis);
    push(out, "      0");
    for i in 0..n {
        push(out, &format!("     {}  {:.5}", i, i as f64 * 0.1));
    }
}

/// One mesh's blocks: grid, dimensions, transform tables, offset,
/// obstructions and vents (ordinary and dummy).
fn mesh(out: &mut String, name: &str, trns: (usize, usize, usize), obsts: usize, vents: (usize, usize)) {
    push(out, &format!("GRID {}", name));
    push(out, &format!("   {}   {}   {}   0", trns.0 - 1, trns.1 - 1, trns.2 - 1));
    push(out, "PDIM");
    push(out, "  0.00000  2.40000  0.00000  1.00000  0.00000  2.40000  0.000000  0.000000  0.000000");
    trn(out, "TRNX", trns.0);
    trn(out, "TRNY", trns.1);
    trn(out, "TRNZ", trns.2);
    push(out, "OFFSET");
    push(out, "  0.00000  0.00000  0.00000");
    push(out, "OBST");
    push(out, &format!("   {}", obsts));
    for k in 0..obsts {
        push(out, &format!(" 0.0 0.1 0.0 0.1 0.0 0.1 {} 1 1 1 1 1 1", k + 1));
    }
    for _ in 0..obsts {
        push(out, " 1 2 1 2 1 2 -1 -1");
    }
    push(out, "VENT");
    push(out, &format!("   {}   {}", vents.0 + vents.1, vents.1));
    for k in 0..(vents.0 + vents.1) {
        push(out, &format!(" 0.0 0.0 0.0 1.0 0.0 1.0 {} 0", k + 1));
    }
    for _ in 0..(vents.0 + vents.1) {
        push(out, " 0 0 0 10 0 24 1 2");
    }
}

fn surface(out: &mut String, name: &str) {
    push(out, "SURFACE");
    push(out, &format!(" {}", name));
    push(out, "  5000.00  1.00");
    push(out, "  0 1.00000 1.00000 1.000000 0.800000 0.600000 1.000000");
    push(out, " null");
}

fn csvf(out: &mut String, kind: &str, file: &str) {
    push(out, "CSVF");
    push(out, &format!(" {}", kind));
    push(out, &format!(" {}", file));
}

fn preamble(out: &mut String, title: &str, chid: &str, meshes: usize) {
    push(out, "TITLE");
    push(out, &format!(" {}", title));
    push(out, "");
    push(out, "FDSVERSION");
    push(out, "FDS6.7.0");
    push(out, "Mon Jan  1 00:00:00 2024");
    push(out, "CHID");
    push(out, &format!(" {}", chid));
    push(out, "INPF");
    push(out, &format!(" {}.fds", chid));
    push(out, "NMESHES");
    push(out, &format!("  {}", meshes));
    push(out, "ALBEDO");
    push(out, " 0.30000");
    push(out, "MATERIAL");
    push(out, " ignored");
}

/// A single-mesh manifest: 737 obstructions, 6 vents, 15 surfaces, 3
/// catalog entries, transform tables of 25, 11 and 25 entries.
fn room_fire() -> String {
    let mut out = String::new();
    preamble(&mut out, "Single Couch Test Case", "room_fire", 1);
    for s in 0..15 {
        surface(&mut out, &format!("SURF_{}", s));
    }
    csvf(&mut out, "hrr", "room_fire_hrr.csv");
    csvf(&mut out, "devc", "room_fire_devc.csv");
    csvf(&mut out, "steps", "room_fire_steps.csv");
    mesh(&mut out, "MESH_01", (25, 11, 25), 737, (4, 2));
    push(&mut out, "SOMEFUTUREBLOCK 3");
    push(&mut out, " whatever");
    out
}

/// A six-mesh manifest with an empty title: 17 surfaces, 4 catalog entries,
/// transform tables of 424, 19 and 26 entries in the first mesh.
fn test1() -> String {
    let mut out = String::new();
    push(&mut out, "TITLE");
    push(&mut out, " ");
    push(&mut out, "CHID");
    push(&mut out, " abcde");
    push(&mut out, "INPF");
    push(&mut out, " abcde.fds");
    for s in 0..17 {
        surface(&mut out, &format!("S{}", s));
    }
    for c in ["hrr", "devc", "ctrl", "steps"] {
        csvf(&mut out, c, &format!("abcde_{}.csv", c));
    }
    mesh(&mut out, "M0", (424, 19, 26), 3, (1, 0));
    for m in 1..6 {
        mesh(&mut out, &format!("M{}", m), (10 + m, 5, 7), 0, (0, 0));
    }
    push(&mut out, "ALBEDO");
    push(&mut out, " 0.3");
    out
}

fn parse(text: &str) -> Result<SmvFile, ParseSmvError> {
    parse_smv_file(text.as_bytes())
}

#[test]
fn parse_smv_simple() {
    let result = parse(&room_fire()).expect("smv parsing failed");
    assert_eq!(result.title.as_str(), "Single Couch Test Case");
    assert_eq!(result.chid.as_str(), "room_fire");
    assert_eq!(result.meshes.len(), 1);
    assert_eq!(result.meshes[0].obsts.len(), 737);
    assert_eq!(result.surfs.len(), 15);
    assert_eq!(result.meshes[0].vents.len(), 6);
    assert_eq!(result.csvfs.len(), 3);
    assert_eq!(result.meshes[0].trnx.len(), 25);
    assert_eq!(result.meshes[0].trny.len(), 11);
    assert_eq!(result.meshes[0].trnz.len(), 25);
}

#[test]
fn parse_smv_multimesh() {
    let result = parse(&test1()).expect("smv parsing failed");
    assert_eq!(result.title.as_str(), "");
    assert_eq!(result.chid.as_str(), "abcde");
    assert_eq!(result.meshes.len(), 6);
    assert_eq!(result.surfs.len(), 17);
    assert_eq!(result.csvfs.len(), 4);
    assert_eq!(result.meshes[0].trnx.len(), 424);
    assert_eq!(result.meshes[0].trny.len(), 19);
    assert_eq!(result.meshes[0].trnz.len(), 26);
}

#[test]
fn every_mesh_list_is_aligned() {
    let result = parse(&test1()).unwrap();
    assert_eq!(result.meshes[0].obsts.len(), 3);
    assert_eq!(result.meshes[0].vents.len(), 1);
    for m in 1..6 {
        assert_eq!(result.meshes[m].name, format!(" M{}", m));
        assert_eq!(result.meshes[m].obsts.len(), 0);
        assert_eq!(result.meshes[m].vents.len(), 0);
        assert_eq!(result.meshes[m].trnx.len(), 10 + m);
        assert_eq!(result.meshes[m].i_bar, 9 + m as u64);
    }
}

#[test]
fn fields_are_decoded() {
    let result = parse(&room_fire()).unwrap();
    assert_eq!(result.input_filename, "room_fire.fds");
    assert_eq!(result.fds_version.as_deref(), Some("Mon Jan  1 00:00:00 2024"));
    assert_eq!(result.albedo.as_ref().map(|a| a.text.clone()), Some(b"0.30000".to_vec()));
    assert_eq!(result.csvfs[0].type_, "hrr");
    assert_eq!(result.csvfs[0].filename, "room_fire_hrr.csv");
    assert_eq!(result.surfs[3].name, "SURF_3");
    assert_eq!(result.surfs[3].surface_type, 0);
    assert_eq!(result.surfs[3].texture_file, "null");
    assert_eq!(result.unrecognized, vec!["SOMEFUTUREBLOCK".to_string()]);
    let mesh = &result.meshes[0];
    assert_eq!(mesh.obsts[736].id, 737);
    assert_eq!(mesh.obsts[0].ijk, GridRegion::new(1, 2, 1, 2, 1, 2));
    assert_eq!(mesh.obsts[0].colour_index, -1);
    assert_eq!(mesh.vents[5].vent_id, 6);
    assert_eq!(mesh.vents[5].vent_type, 2);
    assert_eq!(mesh.trnx[3].i, 3);
    assert_eq!(mesh.trnx[3].f.text, b"0.30000".to_vec());
    let xb = mesh.xb_from_grid(GridRegion::new(0, 24, 0, 10, 1, 2)).unwrap();
    assert_eq!(xb.x2.text, b"2.40000".to_vec());
    assert_eq!(xb.y2.text, b"1.00000".to_vec());
    assert_eq!(xb.z1.text, b"0.10000".to_vec());
    assert!(mesh.xb_from_grid(GridRegion::new(0, 25, 0, 10, 0, 0)).is_none());
    assert!(mesh.xb_from_grid(GridRegion::new(-1, 2, 0, 10, 0, 0)).is_none());
}

#[test]
fn unbalanced_meshes_are_refused() {
    let mut text = room_fire();
    text.push_str("OFFSET\n 1.0 1.0 1.0\n");
    assert_eq!(parse(&text).err(), Some(ParseSmvError::MeshEntriesUnbalanced));
}

#[test]
fn malformed_number_names_its_line() {
    let text = "TITLE\n t\nALBEDO\n 0.3x\n";
    assert_eq!(parse(text).err(), Some(ParseSmvError::BadLine(4)));
    let text = "TITLE\n t\nVENT\n 1 2\n";
    assert_eq!(parse(text).err(), Some(ParseSmvError::BadLine(4)));
}

#[test]
fn missing_blocks_are_reported() {
    assert_eq!(parse("CHID\n a\nINPF\n a.fds\n").err(), Some(ParseSmvError::MissingTitle));
    assert_eq!(parse("TITLE\n a\nINPF\n a.fds\n").err(), Some(ParseSmvError::MissingChid));
    assert_eq!(
        parse("TITLE\n a\nCHID\n a\n").err(),
        Some(ParseSmvError::MissingInputFilename)
    );
}

#[test]
fn crlf_lines_and_label_records() {
    let text = "TITLE\r\n t\r\nCHID\r\n c\r\nINPF\r\n c.fds\r\n\
                SMOKF3D 1\r\n c_01.s3d\r\n SOOT DENSITY\r\n rho_C\r\n  mg/m3\r\n\
                PRT5 1\r\n c_1.prt5\r\n 1\r\n 2\r\n\
                DEVICE\r\n AOVVFlow % VOLUME FLOW\r\n    31.8 13.0 13.8 0.0 0.0 -1.0  0  0 #  31.3 12.5 13.8 32.3 13.5 13.8 % null\r\n\
                OPEN_VENT 2\r\n 3 10.5\r\n";
    let result = parse(text).unwrap();
    assert_eq!(result.title, "t");
    assert_eq!(result.chid, "c");
    assert_eq!(result.devcs.len(), 1);
    assert_eq!(result.devcs[0].name, "AOVVFlow ");
    assert_eq!(result.devcs[0].quantity, " VOLUME FLOW");
    assert_eq!(result.devcs[0].beam_type, "null");
    assert!(result.devcs[0].ps.is_some());
    assert_eq!(result.prt5s.len(), 1);
    assert_eq!(result.prt5s[0].filename, "c_1.prt5");
    assert_eq!(result.events.len(), 1);
}

#[test]
fn slice_entry_needs_a_line_after_its_labels() {
    let with = "TITLE\n t\nCHID\n c\nINPF\n c.fds\nSLCF 1 # STRUCTURED\n c_1.sf\n TEMPERATURE\n temp\n C\n x\n";
    assert_eq!(parse(with).unwrap().slcfs.len(), 1);
    let without = "TITLE\n t\nCHID\n c\nINPF\n c.fds\nSLCF 1 # STRUCTURED\n c_1.sf\n TEMPERATURE\n temp\n C\nALBEDO\n 0.3\n";
    assert_eq!(parse(without).unwrap().slcfs.len(), 0);
}

#[test]
fn declared_empty_obstruction_block() {
    let text = "TITLE\n t\nCHID\n c\nINPF\n c.fds\nGRID m\n 1 1 1 0\nPDIM\n 0 1 0 1 0 1 0 0 0\nTRNX\n 0\n 0 0.0\nTRNY\n 0\n 0 0.0\nTRNZ\n 0\n 0 0.0\nOFFSET\n 0 0 0\nOBST\n 0\nVENT\n 0 0\nALBEDO\n 0.1\n";
    let result = parse(text).unwrap();
    assert_eq!(result.meshes.len(), 1);
    assert_eq!(result.meshes[0].obsts.len(), 0);
    assert_eq!(result.meshes[0].vents.len(), 0);
}

const HEAD: &str = "TITLE\n t\nCHID\n c\nINPF\n c.fds\n";

#[test]
fn dummy_vents_follow_ordinary_ones() {
    let text = format!(
        "{HEAD}GRID m\n 1 1 1 0\nPDIM\n 0 1 0 1 0 1 0 0 0\nTRNX\n 0\n 0 0.0\nTRNY\n 0\n 0 0.0\nTRNZ\n 0\n 0 0.0\nOFFSET\n 0 0 0\nOBST\n 0\n\
         VENT\n 3 1\n 0 0 0 1 0 1 10 0\n 0 0 0 1 0 1 20 0\n 0 0 0 1 0 1 30 0\n 0 0 0 0 0 0 1 -2 1.0 0.5 0.25 1.0\n 0 0 0 0 0 0 2 -2\n 0 0 0 0 0 0 3 -2\nALBEDO\n 0.1\n"
    );
    let result = parse(&text).unwrap();
    let vents = &result.meshes[0].vents;
    assert_eq!(vents.len(), 3);
    assert_eq!(vents.iter().map(|v| v.vent_id).collect::<Vec<_>>(), vec![10, 20, 30]);
    assert_eq!(vents.iter().map(|v| v.vent_index).collect::<Vec<_>>(), vec![1, 2, 3]);
    assert!(vents[0].color.is_some());
    assert!(vents[2].color.is_none());
}

#[test]
fn transform_table_skips_its_declared_lines() {
    let text = format!(
        "{HEAD}GRID m\n 1 1 1 0\nPDIM\n 0 1 0 1 0 1 0 0 0\nTRNX\n 2\n junk\n more junk\n 0 0.0\n 1 0.5\nTRNY\n 0\n 0 0.0\nTRNZ\n 0\n 0 0.0\nOFFSET\n 0 0 0\nOBST\n 0\nVENT\n 0 0\nALBEDO\n 0.1\n"
    );
    let result = parse(&text).unwrap();
    assert_eq!(result.meshes[0].trnx.len(), 2);
    assert_eq!(result.meshes[0].trnx[1].f.text, b"0.5".to_vec());
}

#[test]
fn transform_table_at_end_of_file_is_not_recorded() {
    let text = format!(
        "{HEAD}GRID m\n 1 1 1 0\nPDIM\n 0 1 0 1 0 1 0 0 0\nOFFSET\n 0 0 0\nOBST\n 0\nVENT\n 0 0\nTRNY\n 0\n 0 0.0\nTRNZ\n 0\n 0 0.0\nTRNX\n 0\n 0 0.0\n"
    );
    assert_eq!(parse(&text).err(), Some(ParseSmvError::MeshEntriesUnbalanced));
}

#[test]
fn third_surface_line_is_read_even_in_column_zero() {
    let text = format!("{HEAD}SURFACE\n S\n 100.0 0.9\n0 1.0 1.0 0.5 0.5 0.5 1.0\n tex.png\n");
    let result = parse(&text).unwrap();
    assert_eq!(result.surfs.len(), 1);
    assert_eq!(result.surfs[0].texture_file, "tex.png");
}

#[test]
fn header_ends_a_block_that_is_short_of_lines() {
    let text = format!("{HEAD}SURFACE\n S\nALBEDO\n 0.2\n");
    let result = parse(&text).unwrap();
    assert_eq!(result.surfs.len(), 0);
    assert_eq!(result.albedo.unwrap().text, b"0.2".to_vec());
}

#[test]
fn malformed_block_parameters_fail() {
    assert_eq!(parse(&format!("{HEAD}GRID\n 1 1 1 0\n")).err(), Some(ParseSmvError::BadLine(7)));
    assert_eq!(parse(&format!("{HEAD}SMOKF3D x\n")).err(), Some(ParseSmvError::BadLine(7)));
    assert_eq!(parse(&format!("{HEAD}\n\nOBST\n 2\n 1 2\n")).err(), Some(ParseSmvError::BadLine(11)));
}
