//! Maven-style artifact coordinates `group:name:version[:classifier][@extension]`
//! and the repository path derived from them.
use vstd::prelude::*;
use crate::text::{
    copy_str, eq_str, join_spec, lemma_join3, lemma_concat_lacks, lemma_split_join, replace_spec, replace_str,
    split_spec, split_str, views,
};

verus! {

/// The extension used when a coordinate names none.
pub open spec fn default_extension() -> Seq<char> {
    seq!['j', 'a', 'r']
}

/// What a coordinate holds, as character sequences.
pub struct ArtifactModel {
    pub group: Seq<char>,
    pub name: Seq<char>,
    pub version: Seq<char>,
    pub classifier: Option<Seq<char>>,
    pub extension: Seq<char>,
}

/// An artifact coordinate.
pub struct Artifact {
    pub group: String,
    pub name: String,
    pub version: String,
    pub classifier: Option<String>,
    pub extension: String,
}

pub open spec fn opt_view(o: Option<String>) -> Option<Seq<char>> {
    match o {
        Some(s) => Some(s@),
        None => None,
    }
}

impl View for Artifact {
    type V = ArtifactModel;

    open spec fn view(&self) -> ArtifactModel {
        ArtifactModel {
            group: self.group@,
            name: self.name@,
            version: self.version@,
            classifier: opt_view(self.classifier),
            extension: self.extension@,
        }
    }
}

/// A non-empty piece that holds neither separator of the coordinate syntax.
pub open spec fn valid_piece(p: Seq<char>) -> bool {
    p.len() > 0 && !p.contains(':') && !p.contains('@')
}

/// A coordinate that its textual form can carry.
pub open spec fn artifact_wf(a: ArtifactModel) -> bool {
    &&& valid_piece(a.group)
    &&& valid_piece(a.name)
    &&& valid_piece(a.version)
    &&& (a.classifier matches Some(c) ==> valid_piece(c))
    &&& valid_piece(a.extension)
}

/// The colon-separated pieces of a coordinate.
pub open spec fn coordinate_pieces(a: ArtifactModel) -> Seq<Seq<char>> {
    match a.classifier {
        Some(c) => seq![a.group, a.name, a.version, c],
        None => seq![a.group, a.name, a.version],
    }
}

/// The textual form of a coordinate; the extension is written only when it is not `jar`.
pub open spec fn artifact_text(a: ArtifactModel) -> Seq<char> {
    let main = join_spec(coordinate_pieces(a), seq![':']);
    if a.extension == default_extension() {
        main
    } else {
        main + seq!['@'] + a.extension
    }
}

/// The coordinate that a text denotes, if any.
pub open spec fn parse_artifact_spec(s: Seq<char>) -> Option<ArtifactModel> {
    let at = split_spec(s, '@');
    let pieces = split_spec(at[0], ':');
    let ext = if at.len() == 2 { at[1] } else { default_extension() };
    if at.len() > 2 || pieces.len() < 3 || pieces.len() > 4 {
        None
    } else {
        let a = ArtifactModel {
            group: pieces[0],
            name: pieces[1],
            version: pieces[2],
            classifier: if pieces.len() == 4 { Some(pieces[3]) } else { None },
            extension: ext,
        };
        if a.group.len() == 0 || a.name.len() == 0 || a.version.len() == 0 || (pieces.len() == 4
            && pieces[3].len() == 0) || ext.len() == 0 {
            None
        } else {
            Some(a)
        }
    }
}

/// Repository path: `group` with dots as slashes, then
/// `/name/version/name-version[-classifier].extension`.
pub open spec fn artifact_path(a: ArtifactModel) -> Seq<char> {
    let base = replace_spec(a.group, seq!['.'], seq!['/']) + seq!['/'] + a.name + seq!['/']
        + a.version + seq!['/'] + a.name + seq!['-'] + a.version;
    let classified = match a.classifier {
        Some(c) => base + seq!['-'] + c,
        None => base,
    };
    classified + seq!['.'] + a.extension
}

/// Parsing the textual form of a well-formed coordinate gives the coordinate back.
pub proof fn lemma_artifact_round_trip(a: ArtifactModel)
    requires
        artifact_wf(a),
    ensures
        parse_artifact_spec(artifact_text(a)) == Some(a),
{
    let pieces = coordinate_pieces(a);
    assert forall|i: int| 0 <= i < pieces.len() implies !(#[trigger] pieces[i]).contains(':')
        && !pieces[i].contains('@') by {}
    lemma_split_join(pieces, ':');
    let main = join_spec(pieces, seq![':']);
    assert(!main.contains('@')) by {
        let n = seq![':'];
        assert(!n.contains('@')) by {
            if n.contains('@') {
                assert(n[0] == ':');
            }
        }
        let p3 = seq![a.group, a.name, a.version];
        lemma_join3(a.group, a.name, a.version, n);
        lemma_concat_lacks(a.group, n, '@');
        lemma_concat_lacks(a.group + n, a.name, '@');
        lemma_concat_lacks(a.group + n + a.name, n, '@');
        lemma_concat_lacks(a.group + n + a.name + n, a.version, '@');
        if let Some(c) = a.classifier {
            assert(pieces.drop_last() =~= p3);
            lemma_concat_lacks(join_spec(p3, n), n, '@');
            lemma_concat_lacks(join_spec(p3, n) + n, c, '@');
        } else {
            assert(pieces =~= p3);
        }
    }
    let text = artifact_text(a);
    if a.extension == default_extension() {
        lemma_split_join(seq![main], '@');
        assert(join_spec(seq![main], seq!['@']) == main);
        assert(split_spec(text, '@') == seq![main]);
    } else {
        let two = seq![main, a.extension];
        assert(two.drop_last() =~= seq![main]);
        assert(join_spec(seq![main], seq!['@']) == main);
        assert(join_spec(two, seq!['@']) == main + seq!['@'] + a.extension);
        assert forall|i: int| 0 <= i < two.len() implies !(#[trigger] two[i]).contains('@') by {}
        lemma_split_join(two, '@');
        assert(split_spec(text, '@') == two);
    }
    assert(split_spec(main, ':') == pieces);
    let r = parse_artifact_spec(text);
    assert(r == Some(a));
}

impl Artifact {
    /// Parses `group:name:version[:classifier][@extension]`; `None` when the
    /// text has another shape or an empty piece.
    pub fn parse(s: &str) -> (r: Option<Artifact>)
        ensures
            r matches Some(a) ==> parse_artifact_spec(s@) == Some(a@),
            r is None ==> parse_artifact_spec(s@) is None,
    {
        let at = split_str(s, '@');
        if at.len() > 2 {
            return None;
        }
        assert(views(at@)[0] == at@[0]@);
        let pieces = split_str(at[0].as_str(), ':');
        if pieces.len() < 3 || pieces.len() > 4 {
            return None;
        }
        let extension = if at.len() == 2 {
            copy_str(at[1].as_str())
        } else {
            proof {
                reveal_strlit("jar");
            }
            let e = String::from_str("jar");
            assert(e@ =~= default_extension());
            e
        };
        let classifier = if pieces.len() == 4 {
            if pieces[3].as_str().unicode_len() == 0 {
                return None;
            }
            Some(copy_str(pieces[3].as_str()))
        } else {
            None
        };
        if pieces[0].as_str().unicode_len() == 0 || pieces[1].as_str().unicode_len() == 0
            || pieces[2].as_str().unicode_len() == 0 || extension.as_str().unicode_len() == 0 {
            return None;
        }
        proof {
            assert(views(at@)[0] == at@[0]@);
            assert(views(pieces@)[0] == pieces@[0]@);
            assert(views(pieces@)[1] == pieces@[1]@);
            assert(views(pieces@)[2] == pieces@[2]@);
            if pieces.len() == 4 {
                assert(views(pieces@)[3] == pieces@[3]@);
            }
            if at.len() == 2 {
                assert(views(at@)[1] == at@[1]@);
            }
        }
        let a = Artifact {
            group: copy_str(pieces[0].as_str()),
            name: copy_str(pieces[1].as_str()),
            version: copy_str(pieces[2].as_str()),
            classifier,
            extension,
        };
        Some(a)
    }

    /// The textual form `group:name:version[:classifier][@extension]`.
    pub fn to_string(&self) -> (r: String)
        ensures
            r@ == artifact_text(self@),
    {
        let mut out = copy_str(self.group.as_str());
        out.append(":");
        out.append(self.name.as_str());
        out.append(":");
        out.append(self.version.as_str());
        let ghost main3 = out@;
        if let Some(c) = &self.classifier {
            out.append(":");
            out.append(c.as_str());
        }
        let ghost main = out@;
        proof {
            reveal_strlit(":");
            reveal_strlit("@");
            reveal_strlit("jar");
            let p3 = seq![self.group@, self.name@, self.version@];
            lemma_join3(self.group@, self.name@, self.version@, seq![':']);
            assert(":"@ =~= seq![':']);
            assert(main3 =~= join_spec(p3, seq![':']));
            if self.classifier is Some {
                assert(coordinate_pieces(self@).drop_last() =~= p3);
            } else {
                assert(coordinate_pieces(self@) =~= p3);
            }
            assert(main =~= join_spec(coordinate_pieces(self@), seq![':']));
        }
        if !eq_str(self.extension.as_str(), "jar") {
            out.append("@");
            out.append(self.extension.as_str());
        }
        proof {
            assert("jar"@ =~= default_extension());
        }
        out
    }

    /// The path of this artifact inside a repository.
    pub fn get_path_string(&self) -> (r: String)
        ensures
            r@ == artifact_path(self@),
    {
        proof {
            reveal_strlit(".");
            reveal_strlit("/");
            reveal_strlit("-");
        }
        let mut out = replace_str(self.group.as_str(), ".", "/");
        out.append("/");
        out.append(self.name.as_str());
        out.append("/");
        out.append(self.version.as_str());
        out.append("/");
        out.append(self.name.as_str());
        out.append("-");
        out.append(self.version.as_str());
        if let Some(c) = &self.classifier {
            out.append("-");
            out.append(c.as_str());
        }
        out.append(".");
        out.append(self.extension.as_str());
        proof {
            assert("."@ =~= seq!['.']);
            assert("/"@ =~= seq!['/']);
            assert("-"@ =~= seq!['-']);
        }
        out
    }

    /// A copy of this coordinate whose classifier is `classifier` when one is given.
    pub fn with_classifier(&self, classifier: Option<&str>) -> (r: Artifact)
        ensures
            r@ == (ArtifactModel {
                classifier: match classifier {
                    Some(c) => Some(c@),
                    None => self@.classifier,
                },
                ..self@
            }),
    {
        let c = match classifier {
            Some(c) => Some(copy_str(c)),
            None => match &self.classifier {
                Some(c) => Some(copy_str(c.as_str())),
                None => None,
            },
        };
        Artifact {
            group: copy_str(self.group.as_str()),
            name: copy_str(self.name.as_str()),
            version: copy_str(self.version.as_str()),
            classifier: c,
            extension: copy_str(self.extension.as_str()),
        }
    }
}

} // verus!
