//! The writer of the exchange document: a STEP file of numbered entities.
//!
//! The entities of the envelope have fixed numbers, because they refer to
//! each other by number. The point list is entity 94 and the face set is
//! entity 53; the face set names the point list, and the envelope names
//! the face set. With the mesh written, every entity that the document
//! names is defined in it, once.

use crate::export::{metadata_or_default, MetadataView, ProjectMetadata};
use crate::mesh::Mesh;
use crate::providers::grid::{
    point_list_text,
    triangle_list_text,
    write_point_list,
    write_vertex_list as write_triangle_list,
    TriangleCoord,
};
use crate::providers::Punkt;
use crate::text::{decimal, hundredths, join, lemma_join_push, push_decimal, push_hundredths};
use crate::vertex::Vertex;
use vstd::prelude::*;
use vstd::string::*;

verus! {

/// The highest entity number that the envelope may use. Numbers handed out
/// by the writer lie above it.
pub const RESERVED_IDS: usize = 1100;

/// The header up to the time stamp.
pub const HEADER_OPEN: &'static str = r#"ISO-10303-21;
HEADER;
FILE_DESCRIPTION(('Option [Terrengmodell: On]'),'2;1');
FILE_NAME('','"#;

/// Between the time stamp and the author.
pub const HEADER_AUTHOR: &'static str = "',(";

/// Between the author and the application's name.
pub const HEADER_ORIGIN: &'static str = "),(''),'DDS_IFC v3.0','";

/// Between the application's name and its version.
pub const HEADER_BUILD: &'static str = " build ";

/// The end of the header, and the entities of the application up to its version.
pub const HEADER_APPLICATION: &'static str = r#"','DDS');
FILE_SCHEMA(('IFC4'));
ENDSEC;
DATA;

/* APPLICATION */
#34=IFCPERSON($,$,'',$,$,$,$,$);
#35=IFCORGANIZATION($,'',$,$,$);
#36=IFCORGANIZATION($,'Data Design System AS',$,$,$);
#6=IFCPERSONANDORGANIZATION(#34,#35,$);
#37=IFCCARTESIANPOINT((0.,0.,0.));
#7=IFCAPPLICATION(#36,'"#;

/// Between two text fields of an entity.
pub const HEADER_NEXT_FIELD: &'static str = "','";

/// The entities of the project up to its name.
pub const HEADER_PROJECT: &'static str = r#"');

/* PROJECT */
#1=IFCPROJECT('3rPWK2ZfD6bBH524n2KTpl',#2,'"#;

/// Between the project's name and the site's.
pub const HEADER_SITE: &'static str = r#"',$,$,$,$,(#3),#4);
#33=IFCSITE('25Nbteh8zCUQrx_1EOgClS',$,'"#;

/// The entities of the project after the site's name, with the placement
/// and the north direction of the model's context.
pub const HEADER_CLOSE: &'static str = r#"',$,$,#51,$,$,.ELEMENT.,$,$,$,$,$);
#2=IFCOWNERHISTORY(#6,#7,$,.NOCHANGE.,$,$,$,1693812560);
#3=IFCGEOMETRICREPRESENTATIONCONTEXT($,'Model',3,1.E-05,#8,#9);
#5=IFCRELAGGREGATES('2kzQ1oOxb5l9$1Jt6usF8_',$,$,$,#1,(#33));
#8=IFCAXIS2PLACEMENT3D(#901,$,$);
#9=IFCDIRECTION((0.,1.));
"#;

/// The entities of the model: its context and reference system, its units,
/// the terrain element and the placements.
pub const MODEL_DEFINITION: &'static str = r#"/* MODEL */
/* MODEL */
#10=IFCGEOMETRICREPRESENTATIONSUBCONTEXT('Body','Model',*,*,*,*,#3,0.01,.MODEL_VIEW.,$);
#11=IFCMAPCONVERSION(#3,#39,0.,0.,0.,1.,0.,1.);
#51=IFCLOCALPLACEMENT($,#57);
#57=IFCAXIS2PLACEMENT3D(#901,$,$);
#52=IFCRELCONTAINEDINSPATIALSTRUCTURE('2wR$JEyzD0exJeCIxHCp4q',$,$,$,(#76),#33);
#54=IFCPRESENTATIONLAYERASSIGNMENT('NO_Bergmodell',$,(#53,#38),'BldBfc.3299');
#39=IFCPROJECTEDCRS('EPSG:5110','EUREF89 NTM Sone 10','EUREF89','NN2000','Gauss Kruger','EUREF89 NTM Sone 10',$);

/* UNITS */
#4=IFCUNITASSIGNMENT((#12,#13,#18,#19,#20,#26));
#12=IFCSIUNIT(*,.LENGTHUNIT.,$,.METRE.);
#13=IFCSIUNIT(*,.AREAUNIT.,$,.SQUARE_METRE.);
#18=IFCSIUNIT(*,.MASSUNIT.,.KILO.,.GRAM.);
#19=IFCSIUNIT(*,.PLANEANGLEUNIT.,$,.RADIAN.);
#20=IFCSIUNIT(*,.SOLIDANGLEUNIT.,$,.STERADIAN.);
#26=IFCSIUNIT(*,.VOLUMEUNIT.,$,.CUBIC_METRE.);

/* TERRAIN MODEL */
#38=IFCSHAPEREPRESENTATION(#10,'Body','Tessellation',(#53));
#55=IFCPRODUCTDEFINITIONSHAPE($,$,(#38));
#76=IFCGEOGRAPHICELEMENT('0AYSgff$n1XxZAfc$TvwoL',$,'Punktsky/Triangelnett - 1',$,$,#1006,#55,$,$);

/* WORLD REFERENCE POINT */
#900=IFCDIRECTION((0.,1.));
#901=IFCCARTESIANPOINT((0.,0.,0.));

/* LOCAL COORDINATE SYSTEM */
#1000=IFCCARTESIANPOINT((0.,0.,0.));
#1001=IFCDIRECTION((0.,0.,1.));
#1002=IFCDIRECTION((1.,0.,0.));
#1003=IFCAXIS2PLACEMENT3D(#1000,$,$);
#1004=IFCAXIS2PLACEMENT3D(#1000,#1001,#1002);
#1005=IFCLOCALPLACEMENT($,#1004);
#1006=IFCLOCALPLACEMENT(#1005,#1004);
"#;

/// The entities of the style.
pub const STYLE: &'static str = r#"

/* STYLE */
#164=IFCCOLOURRGB('R:255, G:0, B:0',1.,0.,0.);
#166=IFCCOLOURRGB($,0.6823529601097107,0.09019608050584793,0.);
#165=IFCSURFACESTYLESHADING(#166,0.);
#163=IFCSURFACESTYLE('Material ID: 4.988.903',.BOTH.,(#165));
#162=IFCCURVESTYLE('2b6cb502-45af-48fa-0000-000001000228',$,$,#164,$);
#161=IFCSTYLEDITEM(#53,(#162,#163),$);
"#;

/// The entities of the properties: the terrain element's group and its three
/// property sets.
pub const PROPERTIES: &'static str = r#"
/* PROPERTIES */
#116=IFCRELASSIGNSTOGROUP('1ZvA0wPjb7KggjxvVhyCLu',$,$,$,(#76),.PRODUCT.,#138);
#117=IFCRELDEFINESBYPROPERTIES('1aJdRD0c90dBY6lurqV2b2',$,$,$,(#76),#139);
#118=IFCRELDEFINESBYPROPERTIES('2UraXKHwPEgeA643FanXJY',$,$,$,(#76),#140);
#119=IFCRELDEFINESBYPROPERTIES('3gjzP9Dj90qBpZ5WcvSd7e',$,$,$,(#76),#141);

#138=IFCGROUP('11VMw83pj9e9xctpRIFOjJ',$,'e18vk_e103_fel00_bim_mode_001_g-gf_bergmodell A03.aly',$,$);
#139=IFCPROPERTYSET('1N2c8ZgIT8qgemRZ9UedAh',$,'0_Generell',$,(#142,#143,#144,#145,#146));
#140=IFCPROPERTYSET('2c2KzWJ4H0cA24jbcVZnBr',$,'0_Element',$,(#147,#148,#149,#150,#151,#152,#153,#154));
#141=IFCPROPERTYSET('1Km3UfOgX3c9xm$_kVeGzy',$,'Attributter',$,(#155,#156,#157,#158,#159,#160));
#142=IFCPROPERTYSINGLEVALUE('Prosjekt','',IFCLABEL('e18vk'),$);
#143=IFCPROPERTYSINGLEVALUE('Entreprise','',IFCLABEL('e103'),$);
#144=IFCPROPERTYSINGLEVALUE('Byggeobjekt','',IFCLABEL('fel'),$);
#145=IFCPROPERTYSINGLEVALUE('Anleggsdel','',IFCLABEL('00'),$);
#146=IFCPROPERTYSINGLEVALUE('Fagdisiplin','',IFCLABEL('igg'),$);
#147=IFCPROPERTYSINGLEVALUE('Utarbeidet_av','',IFCLABEL('JoBern'),$);
#148=IFCPROPERTYSINGLEVALUE('Kontrollert_av','',IFCLABEL('AKVi'),$);
#149=IFCPROPERTYSINGLEVALUE('Godkjent_av','',IFCLABEL('N/A'),$);
#150=IFCPROPERTYSINGLEVALUE('MMI','',IFCLABEL('200'),$);
#151=IFCPROPERTYSINGLEVALUE('Revisjon','',IFCLABEL('A03'),$);
#152=IFCPROPERTYSINGLEVALUE('Revisjonsdato','',IFCLABEL('2023-09-04'),$);
#153=IFCPROPERTYSINGLEVALUE('Revisjon_gjelder','',IFCLABEL('Lagt inn estimerte bergpunkt ved VA-trase 2'),$);
#154=IFCPROPERTYSINGLEVALUE('Bruksstatus','',IFCLABEL('Innmålt'),$);
#155=IFCPROPERTYSINGLEVALUE('S_IMPORTFILE','',IFCLABEL('e18vk_e103_fel00_bim_mode_001_g-gf_bergmodell'),$);
#156=IFCPROPERTYSINGLEVALUE('S_IMPORTDATE','',IFCLABEL('2023-09-04'),$);
#157=IFCPROPERTYSINGLEVALUE('Layer','',IFCLABEL('NO_Bergmodell'),$);
#158=IFCPROPERTYSINGLEVALUE('Color','',IFCLABEL('1'),$);
#159=IFCPROPERTYSINGLEVALUE('Linetype','',IFCLABEL('ByLayer'),$);
#160=IFCPROPERTYSINGLEVALUE('BlockRef','',IFCLABEL('NO_Bergmodell'),$);
"#;

/// The point-list entity up to its first point.
pub const POINT_LIST_OPEN: &'static str = "\n#94=IFCCARTESIANPOINTLIST3D((";

/// The point-list entity after its last point.
pub const POINT_LIST_CLOSE: &'static str = "));";

/// The face-set entity up to its first triangle: it names the point list.
pub const FACE_SET_OPEN: &'static str = "\n#53=IFCTRIANGULATEDFACESET(#94,$,$,(";

/// The face-set entity after its last triangle.
pub const FACE_SET_CLOSE: &'static str = "),$);";

/// The end of the data section and of the document.
pub const FOOTER: &'static str = "\nENDSEC;\nEND-ISO-10303-21;";

/// The header section and the entities that say who wrote the document
/// and for what, written at the time `now`.
pub open spec fn header_text(metadata: MetadataView, now: Seq<char>) -> Seq<char> {
    Seq::<char>::empty() + HEADER_OPEN@ + now + HEADER_AUTHOR@ + metadata.author + HEADER_ORIGIN@
        + metadata.application_name + HEADER_BUILD@ + metadata.application_version
        + HEADER_APPLICATION@ + metadata.application_version + HEADER_NEXT_FIELD@
        + metadata.application_name + HEADER_NEXT_FIELD@ + metadata.application_name
        + HEADER_PROJECT@ + metadata.project_name + HEADER_SITE@ + metadata.site_name
        + HEADER_CLOSE@
}

/// All that stands before the geometry.
pub open spec fn prologue_text(metadata: MetadataView, now: Seq<char>) -> Seq<char> {
    header_text(metadata, now) + MODEL_DEFINITION@ + STYLE@
}

/// One position: its three coordinates with two decimals, in brackets.
pub open spec fn vertex_text(v: Vertex) -> Seq<char> {
    "("@ + hundredths(v.x as int) + ","@ + hundredths(v.y as int) + ","@ + hundredths(v.z as int)
        + ")"@
}

/// The positions of every vertex, in the order of the buffer.
pub open spec fn vertex_texts(vertices: Seq<Vertex>) -> Seq<Seq<char>> {
    Seq::new(vertices.len(), |i: int| vertex_text(vertices[i]))
}

/// The point-list entity.
pub open spec fn vertex_list_text(vertices: Seq<Vertex>) -> Seq<char> {
    POINT_LIST_OPEN@ + join(vertex_texts(vertices), ","@) + POINT_LIST_CLOSE@
}

/// Triangle `t` of an index buffer: its three corners, counted from one, in
/// brackets.
pub open spec fn face_text(indices: Seq<u32>, t: int) -> Seq<char> {
    "("@ + decimal((indices[3 * t] + 1) as nat) + ","@ + decimal((indices[3 * t + 1] + 1) as nat)
        + ","@ + decimal((indices[3 * t + 2] + 1) as nat) + ")"@
}

/// Every whole triangle of the index buffer, in its order.
pub open spec fn face_texts(indices: Seq<u32>) -> Seq<Seq<char>> {
    Seq::new((indices.len() / 3) as nat, |t: int| face_text(indices, t))
}

/// The face-set entity.
pub open spec fn index_list_text(indices: Seq<u32>) -> Seq<char> {
    FACE_SET_OPEN@ + join(face_texts(indices), ","@) + FACE_SET_CLOSE@
}

fn push_vertex(text: &mut String, v: Vertex)
    ensures
        final(text)@ == old(text)@ + vertex_text(v),
{
    text.append("(");
    push_hundredths(text, v.x as i64);
    text.append(",");
    push_hundredths(text, v.y as i64);
    text.append(",");
    push_hundredths(text, v.z as i64);
    text.append(")");
    assert(text@ =~= old(text)@ + vertex_text(v));
}

fn push_face(text: &mut String, indices: &Vec<u32>, t: usize)
    requires
        3 * t + 2 < indices@.len(),
    ensures
        final(text)@ == old(text)@ + face_text(indices@, t as int),
{
    assert(indices.len() == indices@.len());
    text.append("(");
    push_decimal(text, indices[3 * t] as u64 + 1);
    text.append(",");
    push_decimal(text, indices[3 * t + 1] as u64 + 1);
    text.append(",");
    push_decimal(text, indices[3 * t + 2] as u64 + 1);
    text.append(")");
    assert(text@ =~= old(text)@ + face_text(indices@, t as int));
}

/// Writes the point-list entity of a vertex buffer.
pub fn write_vertex_list(vertices: &Vec<Vertex>) -> (text: String)
    ensures
        text@ == vertex_list_text(vertices@),
{
    let mut text = String::new();
    text.append(POINT_LIST_OPEN);
    let ghost texts = vertex_texts(vertices@);
    let mut i: usize = 0;
    while i < vertices.len()
        invariant
            i <= vertices@.len(),
            texts == vertex_texts(vertices@),
            text@ == POINT_LIST_OPEN@ + join(texts.take(i as int), ","@),
        decreases vertices.len() - i,
    {
        if i > 0 {
            text.append(",");
        }
        push_vertex(&mut text, vertices[i]);
        proof {
            lemma_join_push(texts.take(i as int), texts[i as int], ","@);
            assert(texts.take(i + 1) =~= texts.take(i as int).push(texts[i as int]));
            assert(text@ =~= POINT_LIST_OPEN@ + join(texts.take(i + 1), ","@));
        }
        i = i + 1;
    }
    assert(texts.take(i as int) =~= texts);
    text.append(POINT_LIST_CLOSE);
    text
}

/// Writes the face-set entity of an index buffer that holds whole triangles.
pub fn write_index_list(indices: &Vec<u32>) -> (text: String)
    requires
        indices@.len() % 3 == 0,
    ensures
        text@ == index_list_text(indices@),
{
    let mut text = String::new();
    text.append(FACE_SET_OPEN);
    let ghost texts = face_texts(indices@);
    let count: usize = indices.len() / 3;
    let mut t: usize = 0;
    while t < count
        invariant
            t <= count,
            count == indices@.len() / 3,
            indices@.len() % 3 == 0,
            texts == face_texts(indices@),
            text@ == FACE_SET_OPEN@ + join(texts.take(t as int), ","@),
        decreases count - t,
    {
        if t > 0 {
            text.append(",");
        }
        push_face(&mut text, indices, t);
        proof {
            lemma_join_push(texts.take(t as int), texts[t as int], ","@);
            assert(texts.take(t + 1) =~= texts.take(t as int).push(texts[t as int]));
            assert(text@ =~= FACE_SET_OPEN@ + join(texts.take(t + 1), ","@));
        }
        t = t + 1;
    }
    assert(texts.take(t as int) =~= texts);
    text.append(FACE_SET_CLOSE);
    text
}

/// Reads the clock through `chrono::Utc::now` and writes the time as
/// year, month, day, `T`, hours, minutes and seconds.
///
/// Nothing is claimed of the text: it depends on when the call is made.
/// The outside function stops the program where the machine's clock
/// stands before 1970.
#[verifier::external_body]
fn timestamp_now() -> (now: String) {
    chrono::Utc::now().format("%Y-%m-%dT%H:%M:%S").to_string()
}

/// Accumulates an exchange document: the envelope first, then the mesh.
#[derive(Debug)]
pub struct IfcWriter {
    buffer: String,
    project_metadata: Option<ProjectMetadata>,
    /// Entity numbers handed out so far, all of them above the reserved ones.
    allocated: usize,
    has_mesh: bool,
    has_properties: bool,
}

impl IfcWriter {
    /// The text written so far.
    pub closed spec fn text(&self) -> Seq<char> {
        self.buffer@
    }

    /// The last entity number handed out, or the last reserved one where
    /// none was.
    pub closed spec fn last_id(&self) -> int {
        RESERVED_IDS + self.allocated
    }

    /// Whether the mesh has been written.
    pub closed spec fn has_mesh(&self) -> bool {
        self.has_mesh
    }

    /// Whether the properties have been written.
    pub closed spec fn has_properties(&self) -> bool {
        self.has_properties
    }

    /// Tells whether the mesh has been written: a document holds one.
    pub fn holds_mesh(&self) -> (b: bool)
        ensures
            b == self.has_mesh(),
    {
        self.has_mesh
    }

    /// Tells whether the properties have been written: a document holds
    /// them once.
    pub fn holds_properties(&self) -> (b: bool)
        ensures
            b == self.has_properties(),
    {
        self.has_properties
    }

    /// The metadata that the writer was made with.
    pub closed spec fn metadata(&self) -> Option<ProjectMetadata> {
        self.project_metadata
    }

    /// A writer that holds the envelope's opening: the header and the
    /// entities of the project, the model with its units and reference
    /// system, and the style, stamped with the time of the call.
    pub fn new(project_metadata: Option<ProjectMetadata>) -> (writer: IfcWriter)
        ensures
            exists|now: Seq<char>|
                writer.text() == #[trigger] prologue_text(
                    metadata_or_default(project_metadata),
                    now,
                ),
            writer.metadata() == project_metadata,
            writer.last_id() == RESERVED_IDS,
            !writer.has_mesh(),
            !writer.has_properties(),
    {
        let now = timestamp_now();
        Self::with_timestamp(project_metadata, now.as_str())
    }

    /// A writer that holds the envelope's opening, stamped `now`.
    pub fn with_timestamp(project_metadata: Option<ProjectMetadata>, now: &str) -> (writer:
        IfcWriter)
        ensures
            writer.text() == prologue_text(metadata_or_default(project_metadata), now@),
            writer.metadata() == project_metadata,
            writer.last_id() == RESERVED_IDS,
            !writer.has_mesh(),
            !writer.has_properties(),
    {
        let mut buffer = String::new();
        let header = match &project_metadata {
            Some(metadata) => Self::generate_header(metadata, now),
            None => {
                let binding = ProjectMetadata::default();
                Self::generate_header(&binding, now)
            },
        };
        buffer.append(header.as_str());
        buffer.append(Self::generate_model_definition().as_str());
        buffer.append(Self::generate_style().as_str());
        assert(buffer@ =~= prologue_text(metadata_or_default(project_metadata), now@));
        IfcWriter {
            buffer,
            project_metadata,
            allocated: 0,
            has_mesh: false,
            has_properties: false,
        }
    }

    /// Writes the mesh: the point list with every vertex, then the face
    /// set with every triangle, its corners counted from one. The mesh is
    /// written as it is, valid or not. A document holds one mesh:
    /// `holds_mesh` tells whether this one has it.
    pub fn add_mesh(&mut self, mesh: &Mesh)
        requires
            !old(self).has_mesh(),
            mesh.indices@.len() % 3 == 0,
        ensures
            final(self).text() == old(self).text() + vertex_list_text(mesh.vertices@)
                + index_list_text(mesh.indices@),
            final(self).has_mesh(),
            final(self).has_properties() == old(self).has_properties(),
            final(self).last_id() == old(self).last_id(),
            final(self).metadata() == old(self).metadata(),
    {
        let point_list = write_vertex_list(&mesh.vertices);
        let face_list = write_index_list(&mesh.indices);
        self.buffer.append(point_list.as_str());
        self.buffer.append(face_list.as_str());
        self.has_mesh = true;
    }

    /// Writes the geometry of a point grid: the face set with the
    /// triangles as they are numbered, then the point list with the points
    /// as they were answered. A document holds one geometry: `holds_mesh`
    /// tells whether this one has it.
    pub fn add_points(&mut self, triangles: &Vec<TriangleCoord>, points: &Vec<Punkt>)
        requires
            !old(self).has_mesh(),
        ensures
            final(self).text() == old(self).text() + triangle_list_text(triangles@)
                + point_list_text(points@),
            final(self).has_mesh(),
            final(self).has_properties() == old(self).has_properties(),
            final(self).last_id() == old(self).last_id(),
            final(self).metadata() == old(self).metadata(),
    {
        let face_list = write_triangle_list(triangles);
        let point_list = write_point_list(points);
        self.buffer.append(face_list.as_str());
        self.buffer.append(point_list.as_str());
        self.has_mesh = true;
    }

    /// Writes the properties of the terrain element. A document holds them
    /// once.
    pub fn add_properties(&mut self)
        requires
            !old(self).has_properties(),
        ensures
            final(self).text() == old(self).text() + PROPERTIES@,
            final(self).has_properties(),
            final(self).has_mesh() == old(self).has_mesh(),
            final(self).last_id() == old(self).last_id(),
            final(self).metadata() == old(self).metadata(),
    {
        self.buffer.append(PROPERTIES);
        self.has_properties = true;
    }

    /// Closes the data section and the document, and hands out its bytes.
    pub fn finish(self) -> (bytes: Vec<u8>)
        ensures
            bytes@ == vstd::utf8::encode_utf8(self.text() + FOOTER@),
    {
        let mut buffer = self.buffer;
        buffer.append(FOOTER);
        buffer.as_str().as_bytes_vec()
    }

    /// Hands out the next free entity number.
    pub fn next_id(&mut self) -> (id: usize)
        requires
            old(self).last_id() < usize::MAX,
        ensures
            id == old(self).last_id() + 1,
            id > RESERVED_IDS,
            final(self).last_id() == id,
            final(self).text() == old(self).text(),
            final(self).has_mesh() == old(self).has_mesh(),
            final(self).has_properties() == old(self).has_properties(),
            final(self).metadata() == old(self).metadata(),
    {
        self.allocated = self.allocated + 1;
        RESERVED_IDS + self.allocated
    }

    /// Writes the header section and the entities of the application and the
    /// project.
    pub fn generate_header(project_metadata: &ProjectMetadata, now: &str) -> (text: String)
        ensures
            text@ == header_text(project_metadata@, now@),
    {
        let mut text = String::new();
        text.append(HEADER_OPEN);
        text.append(now);
        text.append(HEADER_AUTHOR);
        text.append(project_metadata.author.as_str());
        text.append(HEADER_ORIGIN);
        text.append(project_metadata.application_name.as_str());
        text.append(HEADER_BUILD);
        text.append(project_metadata.application_version.as_str());
        text.append(HEADER_APPLICATION);
        text.append(project_metadata.application_version.as_str());
        text.append(HEADER_NEXT_FIELD);
        text.append(project_metadata.application_name.as_str());
        text.append(HEADER_NEXT_FIELD);
        text.append(project_metadata.application_name.as_str());
        text.append(HEADER_PROJECT);
        text.append(project_metadata.project_name.as_str());
        text.append(HEADER_SITE);
        text.append(project_metadata.site_name.as_str());
        text.append(HEADER_CLOSE);
        text
    }

    /// Writes the entities of the model, its units and its placement.
    pub fn generate_model_definition() -> (text: String)
        ensures
            text@ == MODEL_DEFINITION@,
    {
        String::from_str(MODEL_DEFINITION)
    }

    /// Writes the entities of the style.
    pub fn generate_style() -> (text: String)
        ensures
            text@ == STYLE@,
    {
        String::from_str(STYLE)
    }
}

impl Mesh {
    /// Writes the face-set entity of this mesh.
    pub fn write_index_list(&self) -> (text: String)
        requires
            self.indices@.len() % 3 == 0,
        ensures
            text@ == index_list_text(self.indices@),
    {
        write_index_list(&self.indices)
    }

    /// Writes the point-list entity of this mesh.
    pub fn write_vertex_list(&self) -> (text: String)
        ensures
            text@ == vertex_list_text(self.vertices@),
    {
        write_vertex_list(&self.vertices)
    }
}

} // verus!
