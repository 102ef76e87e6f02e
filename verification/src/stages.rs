//! The fixed stage sequence of the pipeline.
//!
//! Six stages, in a strict total order: fetch the compressed reference
//! database, convert it to the internal sequence format, build a searchable
//! index from it, cluster the index, realign the clusters, and recluster
//! the realigned clusters. Each stage produces exactly one named artifact,
//! and no stage consults a predecessor's content — only its own output's
//! validity gates it.
//!
//! The producers themselves (the HTTP fetch, the format converter, the
//! external clustering tool) are opaque collaborators run by the caller;
//! this module fixes their identity: the URL, the worker count, and the
//! exact argument vector handed to the external tool.

use vstd::prelude::*;

verus! {

/// The producer of one stage: what the caller must run when the stage's
/// output artifact is not yet valid.
pub enum Producer {
    /// A single HTTP GET of a fixed URL, streamed into the output artifact.
    Fetch { url: String },
    /// A streaming format conversion of `input` into the output artifact,
    /// with a worker-count parameter passed through unexamined.
    Convert { input: String, threads: u64 },
    /// An external process given a fixed argument vector; success is a
    /// zero exit status.
    Tool { program: String, args: Vec<String> },
}

/// One ordered step of the pipeline: a name for diagnostics, the output
/// artifact it produces, and the producer that creates that artifact.
pub struct Stage {
    pub name: String,
    pub output: String,
    pub producer: Producer,
}

/// The views of the strings in an argument vector.
pub open spec fn args_view(args: Seq<String>) -> Seq<Seq<char>> {
    args.map_values(|s: String| s@)
}

/// The argument vector that builds the searchable index.
pub open spec fn makedb_args() -> Seq<Seq<char>> {
    seq![
        "makedb"@,
        "--db"@,
        "uniprot_sprot.dmnd"@,
        "--in"@,
        "uniprot_sprot.fasta.gz"@,
    ]
}

/// The argument vector that clusters the index.
pub open spec fn cluster_args() -> Seq<Seq<char>> {
    seq![
        "cluster"@,
        "--db"@,
        "uniprot_sprot.dmnd"@,
        "--approx-id"@,
        "50"@,
        "--threads"@,
        "16"@,
        "--member-cover"@,
        "80"@,
        "-o"@,
        "clusters"@,
    ]
}

/// The argument vector that realigns the clusters.
pub open spec fn realign_args() -> Seq<Seq<char>> {
    seq![
        "realign"@,
        "--db"@,
        "uniprot_sprot.dmnd"@,
        "--approx-id"@,
        "50"@,
        "--clusters"@,
        "clusters"@,
        "--threads"@,
        "16"@,
        "-o"@,
        "clusters.realign"@,
    ]
}

/// The argument vector that reclusters the realigned clusters.
pub open spec fn recluster_args() -> Seq<Seq<char>> {
    seq![
        "recluster"@,
        "--db"@,
        "uniprot_sprot.dmnd"@,
        "--approx-id"@,
        "50"@,
        "--clusters"@,
        "clusters.realign"@,
        "--threads"@,
        "16"@,
        "--member-cover"@,
        "80"@,
        "--out"@,
        "clusters.recluster"@,
    ]
}

/// Pushes the strings of `lits` onto a fresh vector.
fn strings_of(lits: &[&str]) -> (r: Vec<String>)
    ensures
        args_view(r@) =~= lits@.map_values(|s: &str| s@),
{
    let mut r: Vec<String> = Vec::new();
    let n = lits.len();
    for i in 0..n
        invariant
            n == lits@.len(),
            r@.len() == i,
            forall|j: int| 0 <= j < i ==> r@[j]@ == lits@[j]@,
    {
        r.push(String::from_str(lits[i]));
    }
    assert forall|j: int| 0 <= j < lits@.len() implies args_view(r@)[j]
        == lits@.map_values(|s: &str| s@)[j] by {}
    r
}

/// The fixed stage sequence: fetch, convert, build the index, cluster,
/// realign, recluster. Each stage's output is a distinct named file, and
/// the external tool stages carry the exact argument vectors of the
/// system's design (similarity threshold 50, member coverage 80, 16
/// workers).
pub fn default_stages() -> (r: Vec<Stage>)
    ensures
        r@.len() == 6,
        r@[0].name@ == "fetch"@,
        r@[0].output@ == "uniprot_sprot.fasta.gz"@,
        (r@[0].producer matches Producer::Fetch { url }
            && url@ == "https://ftp.uniprot.org/pub/databases/uniprot/current_release/knowledgebase/complete/uniprot_sprot.fasta.gz"@),
        r@[1].name@ == "convert"@,
        r@[1].output@ == "uniprot_sprot.sfasta"@,
        (r@[1].producer matches Producer::Convert { input, threads }
            && input@ == "uniprot_sprot.fasta.gz"@
            && threads == 16u64),
        r@[2].name@ == "makedb"@,
        r@[2].output@ == "uniprot_sprot.dmnd"@,
        (r@[2].producer matches Producer::Tool { program, args }
            && program@ == "diamond"@
            && args_view(args@) =~= makedb_args()),
        r@[3].name@ == "cluster"@,
        r@[3].output@ == "clusters"@,
        (r@[3].producer matches Producer::Tool { program, args }
            && program@ == "diamond"@
            && args_view(args@) =~= cluster_args()),
        r@[4].name@ == "realign"@,
        r@[4].output@ == "clusters.realign"@,
        (r@[4].producer matches Producer::Tool { program, args }
            && program@ == "diamond"@
            && args_view(args@) =~= realign_args()),
        r@[5].name@ == "recluster"@,
        r@[5].output@ == "clusters.recluster"@,
        (r@[5].producer matches Producer::Tool { program, args }
            && program@ == "diamond"@
            && args_view(args@) =~= recluster_args()),
{
    let mut r: Vec<Stage> = Vec::new();
    r.push(Stage {
        name: String::from_str("fetch"),
        output: String::from_str("uniprot_sprot.fasta.gz"),
        producer: Producer::Fetch {
            url: String::from_str("https://ftp.uniprot.org/pub/databases/uniprot/current_release/knowledgebase/complete/uniprot_sprot.fasta.gz"),
        },
    });
    r.push(Stage {
        name: String::from_str("convert"),
        output: String::from_str("uniprot_sprot.sfasta"),
        producer: Producer::Convert {
            input: String::from_str("uniprot_sprot.fasta.gz"),
            threads: 16,
        },
    });
    r.push(Stage {
        name: String::from_str("makedb"),
        output: String::from_str("uniprot_sprot.dmnd"),
        producer: Producer::Tool {
            program: String::from_str("diamond"),
            args: strings_of(&[
                "makedb",
                "--db",
                "uniprot_sprot.dmnd",
                "--in",
                "uniprot_sprot.fasta.gz",
            ]),
        },
    });
    r.push(Stage {
        name: String::from_str("cluster"),
        output: String::from_str("clusters"),
        producer: Producer::Tool {
            program: String::from_str("diamond"),
            args: strings_of(&[
                "cluster",
                "--db",
                "uniprot_sprot.dmnd",
                "--approx-id",
                "50",
                "--threads",
                "16",
                "--member-cover",
                "80",
                "-o",
                "clusters",
            ]),
        },
    });
    r.push(Stage {
        name: String::from_str("realign"),
        output: String::from_str("clusters.realign"),
        producer: Producer::Tool {
            program: String::from_str("diamond"),
            args: strings_of(&[
                "realign",
                "--db",
                "uniprot_sprot.dmnd",
                "--approx-id",
                "50",
                "--clusters",
                "clusters",
                "--threads",
                "16",
                "-o",
                "clusters.realign",
            ]),
        },
    });
    r.push(Stage {
        name: String::from_str("recluster"),
        output: String::from_str("clusters.recluster"),
        producer: Producer::Tool {
            program: String::from_str("diamond"),
            args: strings_of(&[
                "recluster",
                "--db",
                "uniprot_sprot.dmnd",
                "--approx-id",
                "50",
                "--clusters",
                "clusters.realign",
                "--threads",
                "16",
                "--member-cover",
                "80",
                "--out",
                "clusters.recluster",
            ]),
        },
    });
    r
}

} // verus!
